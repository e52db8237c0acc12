use std::collections::HashMap;

use tx_engine::{
    process, Account, Amount, Amounts, ClientId, Error, Ledger, Outcome, Record, RecordType, TxId,
};

fn units(whole: i64) -> Amount {
    Amount::from_units(whole * 10000)
}

fn rec(kind: RecordType, client: ClientId, tx: TxId, amount: Option<Amount>) -> Record {
    Record { kind, client, tx, amount }
}

fn deposit(client: ClientId, tx: TxId, whole: i64) -> Record {
    rec(RecordType::Deposit, client, tx, Some(units(whole)))
}

fn withdrawal(client: ClientId, tx: TxId, whole: i64) -> Record {
    rec(RecordType::Withdrawal, client, tx, Some(units(whole)))
}

fn dispute(client: ClientId, tx: TxId) -> Record {
    rec(RecordType::Dispute, client, tx, None)
}

fn resolve(client: ClientId, tx: TxId) -> Record {
    rec(RecordType::Resolve, client, tx, None)
}

fn chargeback(client: ClientId, tx: TxId) -> Record {
    rec(RecordType::Chargeback, client, tx, None)
}

fn account(client: ClientId, available: Amount, held: Amount, locked: bool) -> Account {
    Account { client, amounts: Amounts { available, held }, locked }
}

fn run(records: Vec<Record>) -> HashMap<ClientId, Account> {
    process(&records).expect("no fatal error")
}

#[test]
fn withdraw_ok() {
    let mut a = Amounts::default();
    a.deposit(2.into());
    assert!(a.withdraw(1.into()));
    assert_eq!(a.available, 1.into());
    assert_eq!(a.held, 0.into());
}

#[test]
fn withdraw_failed() {
    let mut a = Amounts::default();
    a.deposit(1.into());
    assert!(!a.withdraw(2.into()));
    assert_eq!(a.available, 1.into());
    assert_eq!(a.held, 0.into());
}

#[test]
fn amount_from_whole_units() {
    assert_eq!(Amount::from(3).units, 30000);
    assert_eq!(Amount::from(-2).units, -20000);
    assert_eq!(Amount::zero().units, 0);
}

#[test]
fn fractional_amounts_are_exact() {
    // 0.1 + 0.2 - 0.3 is exactly zero with four fractional digits.
    let out = run(vec![
        rec(RecordType::Deposit, 1, 1, Some(Amount::from_units(1000))),
        rec(RecordType::Deposit, 1, 2, Some(Amount::from_units(2000))),
        rec(RecordType::Withdrawal, 1, 3, Some(Amount::from_units(3000))),
    ]);
    assert_eq!(out[&1].amounts.available, Amount::zero());
}

#[test]
fn hold_release_chargeback_move_funds() {
    let mut a = Amounts::default();
    a.deposit(10.into());
    a.hold(4.into());
    assert_eq!(a.available, 6.into());
    assert_eq!(a.held, 4.into());
    assert_eq!(a.total(), 10.into());
    a.release(1.into());
    assert_eq!(a.available, 7.into());
    assert_eq!(a.held, 3.into());
    a.chargeback(3.into());
    assert_eq!(a.available, 7.into());
    assert_eq!(a.held, 0.into());
    assert_eq!(a.total(), 7.into());
}

#[test]
fn total_is_available_plus_held() {
    let a = Amounts { available: Amount::from_units(-15000), held: Amount::from_units(40000) };
    assert_eq!(a.total().units, 25000);
}

#[test]
fn scenario_deposit_then_withdraw() {
    let out = run(vec![
        rec(RecordType::Deposit, 1, 1, Some(Amount::from_units(50000))),
        rec(RecordType::Withdrawal, 1, 2, Some(Amount::from_units(30000))),
    ]);
    assert_eq!(out.len(), 1);
    let a = out[&1];
    assert_eq!(a, account(1, Amount::from_units(20000), Amount::zero(), false));
    assert_eq!(a.amounts.total().units, 20000);
}

#[test]
fn scenario_dispute_then_resolve() {
    let out = run(vec![deposit(1, 1, 10), dispute(1, 1)]);
    assert_eq!(out[&1], account(1, units(0), units(10), false));
    assert_eq!(out[&1].amounts.total(), units(10));
    let out = run(vec![deposit(1, 1, 10), dispute(1, 1), resolve(1, 1)]);
    assert_eq!(out[&1], account(1, units(10), units(0), false));
    assert_eq!(out[&1].amounts.total(), units(10));
}

#[test]
fn scenario_chargeback_locks_but_deposits_still_apply() {
    let out = run(vec![deposit(1, 1, 10), dispute(1, 1), chargeback(1, 1)]);
    assert_eq!(out[&1], account(1, units(0), units(0), true));
    assert_eq!(out[&1].amounts.total(), units(0));
    let out = run(vec![deposit(1, 1, 10), dispute(1, 1), chargeback(1, 1), deposit(1, 2, 5)]);
    assert_eq!(out[&1], account(1, units(5), units(0), true));
}

#[test]
fn scenario_withdrawal_on_fresh_account_is_skipped() {
    let mut ledger = Ledger::new();
    assert_eq!(ledger.apply(&withdrawal(2, 1, 50)), Ok(Outcome::InsufficientFunds));
    assert_eq!(ledger.accounts()[&2], account(2, units(0), units(0), false));
    let out = run(vec![withdrawal(2, 1, 50)]);
    assert_eq!(out[&2], account(2, units(0), units(0), false));
}

#[test]
fn scenario_dispute_of_unknown_tx_creates_empty_account() {
    let mut ledger = Ledger::new();
    assert_eq!(ledger.apply(&dispute(3, 999)), Ok(Outcome::UnknownTx));
    let out = ledger.into_accounts();
    assert_eq!(out.len(), 1);
    assert_eq!(out[&3], account(3, units(0), units(0), false));
}

#[test]
fn scenario_deposit_without_amount_is_fatal() {
    let records = vec![rec(RecordType::Deposit, 4, 1, None), deposit(4, 2, 5)];
    assert_eq!(process(&records), Err(Error::DepositNoAmount(1)));
    let mut ledger = Ledger::new();
    assert_eq!(ledger.apply(&records[0]), Err(Error::DepositNoAmount(1)));
    assert!(ledger.accounts().is_empty());
}

#[test]
fn withdrawal_without_amount_is_fatal() {
    let records = vec![deposit(5, 1, 5), rec(RecordType::Withdrawal, 5, 7, None), deposit(5, 2, 5)];
    assert_eq!(process(&records), Err(Error::WithdrawNoAmount(7)));
}

#[test]
fn overflow_is_fatal() {
    let records = vec![
        rec(RecordType::Deposit, 1, 1, Some(Amount::from_units(i64::MAX))),
        rec(RecordType::Deposit, 1, 2, Some(Amount::from_units(1))),
    ];
    assert_eq!(process(&records), Err(Error::Overflow(2)));
}

#[test]
fn held_funds_count_towards_overflow_of_total() {
    let mut ledger = Ledger::new();
    let big = Amount::from_units(i64::MAX - 10);
    assert_eq!(ledger.apply(&rec(RecordType::Deposit, 1, 1, Some(big))), Ok(Outcome::Applied));
    assert_eq!(ledger.apply(&dispute(1, 1)), Ok(Outcome::Applied));
    let r = rec(RecordType::Deposit, 1, 2, Some(Amount::from_units(20)));
    assert_eq!(ledger.apply(&r), Err(Error::Overflow(2)));
    assert_eq!(ledger.accounts()[&1], account(1, Amount::zero(), big, false));
}

#[test]
fn resolve_and_chargeback_twice_are_no_ops() {
    let mut ledger = Ledger::new();
    assert_eq!(ledger.apply(&deposit(1, 1, 10)), Ok(Outcome::Applied));
    assert_eq!(ledger.apply(&dispute(1, 1)), Ok(Outcome::Applied));
    assert_eq!(ledger.apply(&resolve(1, 1)), Ok(Outcome::Applied));
    assert_eq!(ledger.apply(&resolve(1, 1)), Ok(Outcome::NotDisputed));
    assert_eq!(ledger.accounts()[&1], account(1, units(10), units(0), false));

    assert_eq!(ledger.apply(&dispute(1, 1)), Ok(Outcome::Applied));
    assert_eq!(ledger.apply(&chargeback(1, 1)), Ok(Outcome::Applied));
    assert_eq!(ledger.apply(&chargeback(1, 1)), Ok(Outcome::NotDisputed));
    assert_eq!(ledger.accounts()[&1], account(1, units(0), units(0), true));
}

#[test]
fn resolve_or_chargeback_without_dispute_is_skipped() {
    let out = run(vec![deposit(1, 1, 10), resolve(1, 1), chargeback(1, 1), resolve(1, 9)]);
    assert_eq!(out[&1], account(1, units(10), units(0), false));
    let mut ledger = Ledger::new();
    assert_eq!(ledger.apply(&chargeback(6, 3)), Ok(Outcome::UnknownTx));
    assert_eq!(ledger.apply(&resolve(6, 3)), Ok(Outcome::UnknownTx));
}

#[test]
fn dispute_of_withdrawal_holds_its_amount() {
    let out = run(vec![deposit(1, 1, 10), withdrawal(1, 2, 4), dispute(1, 2)]);
    assert_eq!(out[&1], account(1, units(2), units(4), false));
}

#[test]
fn dispute_may_drive_available_negative() {
    let out = run(vec![deposit(1, 1, 10), withdrawal(1, 2, 8), dispute(1, 1)]);
    assert_eq!(out[&1], account(1, units(-8), units(10), false));
    assert_eq!(out[&1].amounts.total(), units(2));
}

#[test]
fn failed_withdrawal_is_not_recorded() {
    // tx 2 fails, so the later dispute of it finds nothing.
    let out = run(vec![deposit(1, 1, 1), withdrawal(1, 2, 5), dispute(1, 2)]);
    assert_eq!(out[&1], account(1, units(1), units(0), false));
}

#[test]
fn history_entry_is_never_overwritten() {
    let out = run(vec![deposit(1, 1, 10), deposit(1, 1, 3), dispute(1, 1)]);
    assert_eq!(out[&1], account(1, units(3), units(10), false));
}

#[test]
fn accounts_are_kept_apart() {
    let out = run(vec![deposit(1, 1, 10), deposit(2, 2, 7), withdrawal(1, 3, 4)]);
    assert_eq!(out.len(), 2);
    assert_eq!(out[&1], account(1, units(6), units(0), false));
    assert_eq!(out[&2], account(2, units(7), units(0), false));
}

#[test]
fn same_input_gives_same_output() {
    let records = vec![
        deposit(1, 1, 10),
        deposit(2, 2, 3),
        dispute(1, 1),
        withdrawal(2, 3, 1),
        chargeback(1, 1),
    ];
    assert_eq!(process(&records), process(&records));
}

#[test]
fn empty_input_gives_no_accounts() {
    assert!(run(vec![]).is_empty());
}

#[test]
fn account_new_is_empty() {
    assert_eq!(Account::new(9), account(9, units(0), units(0), false));
}

#[test]
fn held_matches_open_disputes() {
    let mut ledger = Ledger::new();
    for r in [deposit(1, 1, 10), deposit(1, 2, 5), dispute(1, 1), dispute(1, 2)] {
        assert_eq!(ledger.apply(&r), Ok(Outcome::Applied));
    }
    assert_eq!(ledger.accounts()[&1], account(1, units(0), units(15), false));
    assert_eq!(ledger.apply(&resolve(1, 1)), Ok(Outcome::Applied));
    assert_eq!(ledger.accounts()[&1], account(1, units(10), units(5), false));
    assert_eq!(ledger.apply(&chargeback(1, 2)), Ok(Outcome::Applied));
    assert_eq!(ledger.accounts()[&1], account(1, units(10), units(0), true));
}
