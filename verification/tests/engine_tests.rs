use std::collections::HashMap;
use payment_engine::account::{Account, DepositState};
use payment_engine::amount::FixedPointAmount;
use payment_engine::engine::process_records;
use payment_engine::errors::EngineError;

fn rows(data: &[&[&str]]) -> Vec<Vec<String>> {
    let mut out: Vec<Vec<String>> = Vec::new();
    for r in data {
        let mut row: Vec<String> = Vec::new();
        for f in *r {
            row.push(f.to_string());
        }
        out.push(row);
    }
    out
}

fn run(data: &[&[&str]]) -> HashMap<u16, Account> {
    process_records(&rows(data)).unwrap()
}

fn assert_balances(a: &Account, available: i64, held: i64, total: i64, locked: bool) {
    assert_eq!(a.available.units, available);
    assert_eq!(a.held.units, held);
    assert_eq!(a.total.units, total);
    assert_eq!(a.locked, locked);
    assert_eq!(a.available.units + a.held.units, a.total.units);
}

const HEADER: &[&str] = &["type", "client", "tx", "amount"];

#[test]
fn scenario_deposits_and_withdrawals() {
    let accounts = run(&[
        HEADER,
        &["deposit", "1", "1", "1.0"],
        &["deposit", "2", "2", "2.0"],
        &["deposit", "1", "3", "2.0"],
        &["withdrawal", "1", "4", "1.5"],
        &["withdrawal", "2", "5", "3.0"],
    ]);
    assert_eq!(accounts.len(), 2);
    assert_balances(accounts.get(&1).unwrap(), 15000, 0, 15000, false);
    // The second withdrawal exceeds the available funds and is rejected.
    assert_balances(accounts.get(&2).unwrap(), 20000, 0, 20000, false);
}

#[test]
fn scenario_chargeback_locks_for_good() {
    let accounts = run(&[
        HEADER,
        &["deposit", "1", "1", "1.0"],
        &["dispute", "1", "1", ""],
        &["chargeback", "1", "1", ""],
    ]);
    assert_balances(accounts.get(&1).unwrap(), 0, 0, 0, true);
    // A later resolve or second chargeback of the same id changes nothing.
    let accounts = run(&[
        HEADER,
        &["deposit", "1", "1", "1.0"],
        &["dispute", "1", "1", ""],
        &["chargeback", "1", "1", ""],
        &["resolve", "1", "1", ""],
        &["chargeback", "1", "1", ""],
    ]);
    let a = accounts.get(&1).unwrap();
    assert_balances(a, 0, 0, 0, true);
    assert_eq!(a.deposited.get(&1).unwrap().state, DepositState::Chargebacked);
}

#[test]
fn scenario_duplicate_tx_id_ignored() {
    let accounts = run(&[
        HEADER,
        &["deposit", "1", "1", "1.0"],
        &["deposit", "1", "1", "1.0"],
    ]);
    let a = accounts.get(&1).unwrap();
    assert_eq!(a.deposited.len(), 1);
    assert_balances(a, 10000, 0, 10000, false);
}

#[test]
fn replay_changes_nothing_anywhere() {
    let base = run(&[
        HEADER,
        &["deposit", "1", "1", "1.0"],
        &["withdrawal", "1", "2", "0.25"],
    ]);
    let replayed = run(&[
        HEADER,
        &["deposit", "1", "1", "1.0"],
        &["withdrawal", "1", "2", "0.25"],
        &["deposit", "1", "1", "1.0"],
        &["withdrawal", "1", "2", "0.25"],
        &["deposit", "2", "1", "5.0"],
    ]);
    // Even another client cannot reuse a consumed id.
    let a = base.get(&1).unwrap();
    let b = replayed.get(&1).unwrap();
    assert_eq!(a.available.units, b.available.units);
    assert_eq!(a.total.units, b.total.units);
    assert_balances(replayed.get(&2).unwrap(), 0, 0, 0, false);
}

#[test]
fn dispute_of_other_clients_deposit_is_ignored() {
    let accounts = run(&[
        HEADER,
        &["deposit", "1", "1", "1.0"],
        &["dispute", "2", "1", ""],
    ]);
    assert_balances(accounts.get(&1).unwrap(), 10000, 0, 10000, false);
    assert_balances(accounts.get(&2).unwrap(), 0, 0, 0, false);
}

#[test]
fn unknown_kind_is_tolerated() {
    let accounts = run(&[
        HEADER,
        &["deposit", "1", "1", "1.0"],
        &["transfer", "1", "2", "1.0"],
    ]);
    assert_balances(accounts.get(&1).unwrap(), 10000, 0, 10000, false);
}

#[test]
fn locked_account_rejects_deposits_and_withdrawals() {
    let accounts = run(&[
        HEADER,
        &["deposit", "1", "1", "1.0"],
        &["deposit", "1", "2", "1.0"],
        &["dispute", "1", "1", ""],
        &["chargeback", "1", "1", ""],
        &["deposit", "1", "3", "1.0"],
        &["withdrawal", "1", "4", "0.5"],
        // Disputes still work on a locked account.
        &["dispute", "1", "2", ""],
    ]);
    let a = accounts.get(&1).unwrap();
    assert_balances(a, 0, 10000, 10000, true);
}

#[test]
fn overflow_deposit_is_rejected_whole() {
    let accounts = run(&[
        HEADER,
        &["deposit", "1", "1", "600000000000000.0"],
        &["deposit", "1", "2", "600000000000000.0"],
    ]);
    let a = accounts.get(&1).unwrap();
    assert_balances(a, 6000000000000000000, 0, 6000000000000000000, false);
    assert_eq!(a.deposited.len(), 1);
}

#[test]
fn fatal_errors_abort_the_run() {
    let r = process_records(&rows(&[HEADER, &["deposit", "x", "1", "1.0"]]));
    assert!(matches!(r, Err(EngineError::ParseIntError)));
    let r = process_records(&rows(&[HEADER, &["deposit", "1", "1"]]));
    assert!(matches!(r, Err(EngineError::MalformedRow)));
    let r = process_records(&rows(&[&["type", "client", "tx"]]));
    assert!(matches!(r, Err(EngineError::MissingColumnAmount)));
    let r = process_records(&rows(&[]));
    assert!(matches!(r, Err(EngineError::MissingColumnAmount)));
}

#[test]
fn test_deposit() {
    let accounts = run(&[
        HEADER,
        &["deposit", "65535", "4294967294", "9999999999999.9999"],
        &["deposit", "65535", "4294967295", "0.0001"],
    ]);
    let a = accounts.get(&65535).unwrap();
    assert_balances(a, 100000000000000000, 0, 100000000000000000, false);
    let d = a.deposited.get(&4294967294).unwrap();
    assert_eq!(d.amount, FixedPointAmount::from_units(99999999999999999));
    assert_eq!(d.state, DepositState::NotDisputed);
    let d = a.deposited.get(&4294967295).unwrap();
    assert_eq!(d.amount, FixedPointAmount::from_units(1));
    assert_eq!(d.state, DepositState::NotDisputed);
}

#[test]
fn test_withdrawl() {
    let accounts = run(&[
        HEADER,
        &["deposit", "65535", "4294967292", "9999999999999.9999"],
        &["deposit", "65535", "4294967293", "0.0001"],
        &["withdrawal", "65535", "10", "0.0001"],
        &["deposit", "65534", "4294967291", "10000000000000.0000"],
        &["withdrawal", "65534", "11", "0.0001"],
    ]);
    let a = accounts.get(&65535).unwrap();
    assert_balances(a, 99999999999999999, 0, 99999999999999999, false);
    assert_eq!(a.deposited.len(), 2);
    let b = accounts.get(&65534).unwrap();
    assert_balances(b, 99999999999999999, 0, 99999999999999999, false);
    assert_eq!(b.deposited.len(), 1);
}

#[test]
fn test_process_records() {
    let accounts = run(&[
        HEADER,
        &["deposit", "1", "1", "1.0"],
        &["deposit", "2", "2", "2.0"],
        &["deposit", "1", "3", "2.0"],
        &["withdrawal", "1", "4", "1.5"],
        &["dispute", "1", "1", ""],
        &["chargeback", "1", "1", ""],
        &["dispute", "1", "3", ""],
        &["chargeback", "1", "3", ""],
        &["dispute", "2", "2", ""],
        &["chargeback", "2", "2", ""],
        &["deposit", "3", "8", "1000"],
        &["dispute", "3", "8", ""],
    ]);
    let a = accounts.get(&1).unwrap();
    assert_balances(a, -15000, 0, -15000, true);
    assert_eq!(a.deposited.get(&1).unwrap().state, DepositState::Chargebacked);
    assert_eq!(a.deposited.get(&3).unwrap().state, DepositState::Chargebacked);
    let b = accounts.get(&2).unwrap();
    assert_balances(b, 0, 0, 0, true);
    let c = accounts.get(&3).unwrap();
    assert_balances(c, 0, 10000000, 10000000, false);
    assert_eq!(c.deposited.get(&8).unwrap().state, DepositState::Disputed);
}

#[test]
fn test_whitespaces() {
    let accounts = run(&[
        &[" type ", " cli ent ", " tx ", " amo unt "],
        &[" depo sit ", " 1 0 ", " 10 0 ", " 1 . 0 "],
        &["deposit", " 20 ", " 200 ", " 2.0 "],
    ]);
    assert_balances(accounts.get(&10).unwrap(), 10000, 0, 10000, false);
    assert_balances(accounts.get(&20).unwrap(), 20000, 0, 20000, false);
}

#[test]
fn test_columns() {
    let accounts = run(&[
        &["amount", "tx", "client", "type", "memo"],
        &["1.0", "100", "10", "deposit", "x"],
        &["2.0", "200", "20", "deposit", "y"],
    ]);
    assert_balances(accounts.get(&10).unwrap(), 10000, 0, 10000, false);
    assert_balances(accounts.get(&20).unwrap(), 20000, 0, 20000, false);
}

#[test]
fn dispute_then_resolve_restores_balances() {
    let before = run(&[
        HEADER,
        &["deposit", "1", "1", "3.5"],
        &["withdrawal", "1", "2", "1.0"],
    ]);
    let after = run(&[
        HEADER,
        &["deposit", "1", "1", "3.5"],
        &["withdrawal", "1", "2", "1.0"],
        &["dispute", "1", "1", ""],
        &["resolve", "1", "1", ""],
    ]);
    let a = before.get(&1).unwrap();
    let b = after.get(&1).unwrap();
    assert_eq!(a.available.units, b.available.units);
    assert_eq!(a.held.units, b.held.units);
    assert_eq!(a.total.units, b.total.units);
    assert_eq!(a.locked, b.locked);
}
