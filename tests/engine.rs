use payments::{Account, Amount, Payments, Transaction, TransactionKind};
use rust_decimal::Decimal;
use std::str::FromStr;

fn dec(s: &str) -> Amount {
    let d = Decimal::from_str(s).unwrap();
    Amount::new(d.mantissa(), d.scale()).unwrap()
}

fn deposit(cid: u16, tid: u32, amount: &str) -> Transaction {
    Transaction { cid, tid, kind: TransactionKind::Deposit { amount: dec(amount) } }
}

fn withdrawal(cid: u16, tid: u32, amount: &str) -> Transaction {
    Transaction { cid, tid, kind: TransactionKind::Withdrawal { amount: dec(amount) } }
}

fn dispute(cid: u16, tid: u32) -> Transaction {
    Transaction { cid, tid, kind: TransactionKind::Dispute }
}

fn resolve(cid: u16, tid: u32) -> Transaction {
    Transaction { cid, tid, kind: TransactionKind::Resolve }
}

fn chargeback(cid: u16, tid: u32) -> Transaction {
    Transaction { cid, tid, kind: TransactionKind::Chargeback }
}

fn account(total: &str, held: &str, is_locked: bool) -> Account {
    Account { total: dec(total), held: dec(held), is_locked, has_activity: true }
}

fn run(transactions: Vec<Transaction>) -> Payments {
    let mut payments = Payments::default();
    for transaction in transactions {
        payments.process_transaction(&transaction);
    }
    payments
}

fn get_active_accounts(payments: &Payments) -> Vec<(u16, Account)> {
    payments
        .accounts()
        .iter()
        .enumerate()
        .map(|(index, account)| (index as u16, *account))
        .filter(|(_, account)| account.has_activity)
        .collect()
}

#[test]
fn test_deposit() {
    let payments = run(vec![deposit(0, 0, "10.0"), deposit(0, 1, "20.0")]);
    assert_eq!(get_active_accounts(&payments), vec![(0, account("30", "0", false))]);
}

#[test]
fn test_deposit_dispute() {
    let payments = run(vec![deposit(0, 0, "10.0"), dispute(0, 0)]);
    assert_eq!(get_active_accounts(&payments), vec![(0, account("10.0", "10.0", false))]);
}

#[test]
fn test_deposit_dispute_resolve() {
    let payments = run(vec![deposit(0, 0, "10.0"), dispute(0, 0), resolve(0, 0)]);
    assert_eq!(get_active_accounts(&payments), vec![(0, account("0.0", "0.0", false))]);
}

#[test]
fn test_deposit_dispute_chargeback() {
    let payments = run(vec![deposit(0, 0, "10.0"), dispute(0, 0), chargeback(0, 0)]);
    assert_eq!(get_active_accounts(&payments), vec![(0, account("10.0", "0.0", true))]);
}

#[test]
fn test_deposit_dispute_two_transactions() {
    let payments = run(vec![
        deposit(0, 0, "10.0"),
        deposit(0, 1, "20.0"),
        dispute(0, 1),
        chargeback(0, 1),
    ]);
    assert_eq!(get_active_accounts(&payments), vec![(0, account("30.0", "0", true))]);
}

// Two deposits, as the records say: they add up.
#[test]
fn test_withdraw() {
    let payments = run(vec![deposit(0, 0, "20.0"), deposit(0, 1, "15.0")]);
    assert_eq!(get_active_accounts(&payments), vec![(0, account("35.0", "0", false))]);
}

#[test]
fn test_withdraw_not_enough_funds() {
    let payments = run(vec![deposit(0, 0, "10.0"), withdrawal(0, 2, "30.0")]);
    assert_eq!(get_active_accounts(&payments), vec![(0, account("10.0", "0", false))]);
}

#[test]
fn test_withdraw_dispute() {
    let payments = run(vec![deposit(0, 0, "10.0"), withdrawal(0, 1, "5.0"), dispute(0, 1)]);
    assert_eq!(get_active_accounts(&payments), vec![(0, account("10.0", "5.0", false))]);
}

#[test]
fn test_dispute_idempotency() {
    let payments = run(vec![
        deposit(0, 0, "10.0"),
        withdrawal(0, 1, "5.0"),
        dispute(0, 1),
        dispute(0, 1),
        dispute(0, 1),
    ]);
    assert_eq!(get_active_accounts(&payments), vec![(0, account("10.0", "5.0", false))]);
}

#[test]
fn test_withdraw_dispute_resolve() {
    let payments = run(vec![
        deposit(0, 0, "10.0"),
        withdrawal(0, 1, "5.0"),
        dispute(0, 1),
        resolve(0, 1),
    ]);
    assert_eq!(get_active_accounts(&payments), vec![(0, account("10.0", "0.0", false))]);
}

#[test]
fn test_withdrawal_dispute_chargeback() {
    let payments = run(vec![
        deposit(0, 0, "10.0"),
        withdrawal(0, 1, "5.0"),
        dispute(0, 1),
        chargeback(0, 1),
    ]);
    assert_eq!(get_active_accounts(&payments), vec![(0, account("5.0", "0.0", true))]);
}

#[test]
fn test_withdraw_dispute_double_spend() {
    let mut payments = run(vec![
        deposit(0, 0, "100.0"),
        withdrawal(0, 1, "50.0"),
        dispute(0, 1),
        withdrawal(0, 2, "50.0"),
    ]);
    assert_eq!(get_active_accounts(&payments), vec![(0, account("50.0", "50.0", false))]);
    payments.process_transaction(&resolve(0, 1));
    assert_eq!(get_active_accounts(&payments), vec![(0, account("50.0", "0", false))]);
}

#[test]
fn test_no_dispute_for_failed_transaction() {
    let payments = run(vec![
        deposit(0, 0, "10.0"),
        withdrawal(0, 1, "20.0"),
        dispute(0, 1),
        resolve(0, 1),
    ]);
    assert_eq!(get_active_accounts(&payments), vec![(0, account("10.0", "0.0", false))]);
}

#[test]
fn test_multi_user_separate_accounts() {
    let payments = run(vec![
        deposit(0, 0, "100.0"),
        deposit(1, 1, "200.0"),
        withdrawal(0, 2, "50.0"),
        withdrawal(1, 3, "75.0"),
    ]);
    let active_clients = get_active_accounts(&payments);
    assert_eq!(active_clients.len(), 2);
    assert_eq!(active_clients[0], (0, account("50.0", "0", false)));
    assert_eq!(active_clients[1], (1, account("125.0", "0", false)));
}

#[test]
fn test_cross_client_dispute_attempt() {
    let payments = run(vec![deposit(0, 0, "100.0"), dispute(1, 0)]);
    assert_eq!(
        get_active_accounts(&payments),
        vec![(0, account("100.0", "0", false)), (1, account("0.0", "0", false))]
    );
}

#[test]
fn test_one_locked_one_active() {
    let payments = run(vec![
        deposit(0, 0, "100.0"),
        withdrawal(0, 1, "50.0"),
        dispute(0, 1),
        chargeback(0, 1),
        deposit(1, 2, "200.0"),
        deposit(0, 3, "1000.0"),
        withdrawal(1, 4, "50.0"),
    ]);
    assert_eq!(
        get_active_accounts(&payments),
        vec![(0, account("50.0", "0", true)), (1, account("150.0", "0", false))]
    );
}

#[test]
fn test_overdraft() {
    let payments = run(vec![
        deposit(0, 0, "100.0"),
        withdrawal(0, 1, "50.0"),
        withdrawal(0, 2, "50.0"),
        dispute(0, 0),
        resolve(0, 0),
    ]);
    assert_eq!(get_active_accounts(&payments), vec![(0, account("-100.0", "0.0", false))]);
}
