use std::collections::HashMap;

use ledger::{process_transactions, Account, Transaction, TxKind};

fn tx(tx_type: TxKind, client: u16, tx: u32, amount: Option<u32>) -> Transaction {
    Transaction { tx_type, client, tx, amount }
}

fn account(accounts: &HashMap<u16, Account>, client: u16) -> Account {
    *accounts.get(&client).expect("account missing")
}

fn assert_account(a: Account, available: i128, held: i128, total: i128, locked: bool) {
    assert_eq!(a.available, available);
    assert_eq!(a.held, held);
    assert_eq!(a.total, total);
    assert_eq!(a.locked, locked);
}

#[test]
fn empty_input_yields_no_accounts() {
    let accounts = process_transactions(Vec::new());
    assert!(accounts.is_empty());
}

#[test]
fn deposits_and_withdrawal() {
    let accounts = process_transactions(vec![
        tx(TxKind::Deposit, 1, 1, Some(10)),
        tx(TxKind::Deposit, 2, 2, Some(20)),
        tx(TxKind::Withdrawal, 1, 3, Some(5)),
    ]);
    assert_eq!(accounts.len(), 2);
    assert_account(account(&accounts, 1), 5, 0, 5, false);
    assert_account(account(&accounts, 2), 20, 0, 20, false);
}

#[test]
fn dispute_holds_funds() {
    let accounts = process_transactions(vec![
        tx(TxKind::Deposit, 1, 1, Some(10)),
        tx(TxKind::Dispute, 1, 1, None),
    ]);
    assert_account(account(&accounts, 1), 0, 10, 10, false);
}

#[test]
fn resolve_releases_held_funds() {
    let accounts = process_transactions(vec![
        tx(TxKind::Deposit, 1, 1, Some(10)),
        tx(TxKind::Dispute, 1, 1, None),
        tx(TxKind::Resolve, 1, 1, None),
    ]);
    assert_account(account(&accounts, 1), 10, 0, 10, false);
}

#[test]
fn chargeback_locks_account_and_later_deposit_is_ignored() {
    let accounts = process_transactions(vec![
        tx(TxKind::Deposit, 1, 1, Some(10)),
        tx(TxKind::Dispute, 1, 1, None),
        tx(TxKind::Chargeback, 1, 1, None),
        tx(TxKind::Deposit, 1, 4, Some(50)),
    ]);
    assert_account(account(&accounts, 1), 0, 0, 0, true);
}

#[test]
fn withdrawal_beyond_available_is_ignored() {
    let accounts = process_transactions(vec![
        tx(TxKind::Deposit, 1, 1, Some(5)),
        tx(TxKind::Withdrawal, 1, 5, Some(100)),
    ]);
    assert_account(account(&accounts, 1), 5, 0, 5, false);
}

#[test]
fn withdrawal_of_whole_balance_empties_account() {
    let accounts = process_transactions(vec![
        tx(TxKind::Deposit, 1, 1, Some(7)),
        tx(TxKind::Withdrawal, 1, 2, Some(7)),
    ]);
    assert_account(account(&accounts, 1), 0, 0, 0, false);
}

#[test]
fn every_account_stays_balanced_through_a_mixed_run() {
    let accounts = process_transactions(vec![
        tx(TxKind::Deposit, 1, 1, Some(100)),
        tx(TxKind::Deposit, 2, 2, Some(40)),
        tx(TxKind::Withdrawal, 1, 3, Some(30)),
        tx(TxKind::Dispute, 1, 1, None),
        tx(TxKind::Dispute, 2, 2, None),
        tx(TxKind::Resolve, 2, 2, None),
        tx(TxKind::Chargeback, 1, 1, None),
        tx(TxKind::Deposit, 3, 4, Some(9)),
    ]);
    for a in accounts.values() {
        assert_eq!(a.total, a.available + a.held);
    }
}

#[test]
fn locked_account_ignores_every_kind() {
    let lock_first = vec![
        tx(TxKind::Deposit, 1, 1, Some(10)),
        tx(TxKind::Deposit, 1, 2, Some(3)),
        tx(TxKind::Dispute, 1, 1, None),
        tx(TxKind::Chargeback, 1, 1, None),
    ];
    let mut with_more = lock_first.clone();
    with_more.push(tx(TxKind::Deposit, 1, 5, Some(50)));
    with_more.push(tx(TxKind::Withdrawal, 1, 6, Some(1)));
    with_more.push(tx(TxKind::Dispute, 1, 2, None));
    with_more.push(tx(TxKind::Resolve, 1, 2, None));
    with_more.push(tx(TxKind::Chargeback, 1, 2, None));
    let before = process_transactions(lock_first);
    let after = process_transactions(with_more);
    assert_eq!(account(&before, 1), account(&after, 1));
    assert!(account(&after, 1).locked);
}

#[test]
fn resolve_on_unknown_tx_changes_nothing() {
    let accounts = process_transactions(vec![
        tx(TxKind::Deposit, 1, 1, Some(10)),
        tx(TxKind::Resolve, 1, 99, None),
    ]);
    assert_account(account(&accounts, 1), 10, 0, 10, false);
}

#[test]
fn chargeback_on_unknown_tx_changes_nothing() {
    let accounts = process_transactions(vec![
        tx(TxKind::Deposit, 1, 1, Some(10)),
        tx(TxKind::Chargeback, 1, 99, None),
    ]);
    assert_account(account(&accounts, 1), 10, 0, 10, false);
}

#[test]
fn resolve_on_settled_dispute_changes_nothing() {
    let accounts = process_transactions(vec![
        tx(TxKind::Deposit, 1, 1, Some(10)),
        tx(TxKind::Dispute, 1, 1, None),
        tx(TxKind::Resolve, 1, 1, None),
        tx(TxKind::Resolve, 1, 1, None),
    ]);
    assert_account(account(&accounts, 1), 10, 0, 10, false);
}

#[test]
fn resolve_without_open_dispute_changes_nothing() {
    let accounts = process_transactions(vec![
        tx(TxKind::Deposit, 1, 1, Some(10)),
        tx(TxKind::Resolve, 1, 1, None),
    ]);
    assert_account(account(&accounts, 1), 10, 0, 10, false);
}

#[test]
fn dispute_on_unknown_tx_changes_nothing() {
    let accounts = process_transactions(vec![
        tx(TxKind::Deposit, 1, 1, Some(10)),
        tx(TxKind::Dispute, 1, 42, None),
    ]);
    assert_account(account(&accounts, 1), 10, 0, 10, false);
}

#[test]
fn dispute_with_client_mismatch_changes_nothing() {
    let accounts = process_transactions(vec![
        tx(TxKind::Deposit, 1, 1, Some(10)),
        tx(TxKind::Dispute, 2, 1, None),
    ]);
    assert_account(account(&accounts, 1), 10, 0, 10, false);
    assert_account(account(&accounts, 2), 0, 0, 0, false);
}

#[test]
fn deposit_without_amount_is_ignored_but_creates_account() {
    let accounts = process_transactions(vec![tx(TxKind::Deposit, 1, 1, None)]);
    assert_account(account(&accounts, 1), 0, 0, 0, false);
}

#[test]
fn unrecognized_kind_is_ignored_but_creates_account() {
    let accounts = process_transactions(vec![tx(TxKind::Unrecognized, 7, 1, Some(10))]);
    assert_eq!(accounts.len(), 1);
    assert_account(account(&accounts, 7), 0, 0, 0, false);
}

#[test]
fn second_dispute_reapplies_the_held_shift() {
    let accounts = process_transactions(vec![
        tx(TxKind::Deposit, 1, 1, Some(10)),
        tx(TxKind::Dispute, 1, 1, None),
        tx(TxKind::Dispute, 1, 1, None),
    ]);
    assert_account(account(&accounts, 1), -10, 20, 10, false);
}

#[test]
fn dispute_after_resolve_reopens_with_same_amount() {
    let accounts = process_transactions(vec![
        tx(TxKind::Deposit, 1, 1, Some(10)),
        tx(TxKind::Dispute, 1, 1, None),
        tx(TxKind::Resolve, 1, 1, None),
        tx(TxKind::Dispute, 1, 1, None),
    ]);
    assert_account(account(&accounts, 1), 0, 10, 10, false);
}

#[test]
fn dispute_after_withdrawal_can_drive_available_negative() {
    let accounts = process_transactions(vec![
        tx(TxKind::Deposit, 1, 1, Some(10)),
        tx(TxKind::Withdrawal, 1, 2, Some(10)),
        tx(TxKind::Dispute, 1, 1, None),
    ]);
    assert_account(account(&accounts, 1), -10, 10, 0, false);
}

#[test]
fn disputed_withdrawal_holds_its_amount() {
    let accounts = process_transactions(vec![
        tx(TxKind::Deposit, 1, 1, Some(10)),
        tx(TxKind::Withdrawal, 1, 2, Some(4)),
        tx(TxKind::Dispute, 1, 2, None),
    ]);
    assert_account(account(&accounts, 1), 2, 4, 6, false);
}

#[test]
fn account_client_field_matches_key() {
    let accounts = process_transactions(vec![
        tx(TxKind::Deposit, 3, 1, Some(1)),
        tx(TxKind::Deposit, 9, 2, Some(2)),
    ]);
    assert_eq!(account(&accounts, 3).client, 3);
    assert_eq!(account(&accounts, 9).client, 9);
}
