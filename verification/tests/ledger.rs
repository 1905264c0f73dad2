use payment_ledger::account::Account;
use payment_ledger::amount::Amount;
use payment_ledger::ledger::{process_rows, Ledger, ProcessingError};
use payment_ledger::transaction::{
    AccountId, DepositState, RowParsingError, Transaction, TransactionFailure, TransactionId,
    TransactionRow, TransactionType,
};
use rust_decimal::Decimal;
use std::collections::HashMap;

fn amount(text: &str) -> Amount {
    let u = Decimal::from_str_exact(text).unwrap().unpack();
    Amount::from_parts(u.lo, u.mid, u.hi, u.negative, u.scale).unwrap()
}

fn text(a: Amount) -> String {
    let (lo, mid, hi, negative, scale) = a.into_parts();
    Decimal::from_parts(lo, mid, hi, negative, scale).to_string()
}

fn transaction(kind: TransactionType, client: u16, tx: u32) -> Transaction {
    Transaction {
        transaction_type: kind,
        account_id: AccountId(client),
        transaction_id: TransactionId(tx),
    }
}

fn deposit(client: u16, tx: u32, value: &str) -> Transaction {
    transaction(TransactionType::Deposit(amount(value), DepositState::Deposited), client, tx)
}

fn withdraw(client: u16, tx: u32, value: &str) -> Transaction {
    transaction(TransactionType::Withdrawal(amount(value)), client, tx)
}

fn dispute(client: u16, tx: u32) -> Transaction {
    transaction(TransactionType::Dispute, client, tx)
}

fn resolve(client: u16, tx: u32) -> Transaction {
    transaction(TransactionType::Resolve, client, tx)
}

fn chargeback(client: u16, tx: u32) -> Transaction {
    transaction(TransactionType::Chargeback, client, tx)
}

fn row(name: &str, client: u16, tx: u32, value: Option<&str>) -> TransactionRow {
    TransactionRow {
        transaction_type: name.to_string(),
        account_id: AccountId(client),
        transaction_id: TransactionId(tx),
        amount: value.map(amount),
    }
}

// Applies the transactions in order and expects each of them to go through.
fn ledger_after(transactions: &[Transaction]) -> (Ledger, HashMap<u16, Account>) {
    let mut ledger = Ledger::new();
    let mut accounts = HashMap::new();
    for t in transactions {
        assert_eq!(ledger.process_transaction(&mut accounts, *t), Ok(()));
    }
    (ledger, accounts)
}

fn balances(accounts: &HashMap<u16, Account>, client: u16) -> (String, String, String, bool) {
    let account = accounts.get(&client).unwrap();
    (text(account.available()), text(account.held()), text(account.total()), account.locked())
}

fn balances_are(
    accounts: &HashMap<u16, Account>,
    client: u16,
    available: &str,
    held: &str,
    total: &str,
    locked: bool,
) {
    assert_eq!(
        balances(accounts, client),
        (available.to_string(), held.to_string(), total.to_string(), locked)
    );
}

#[test]
fn deposit_then_dispute_holds_the_amount() {
    let (_, accounts) = ledger_after(&[deposit(1, 1, "1.0001"), dispute(1, 1)]);
    balances_are(&accounts, 1, "0", "1.0001", "1.0001", false);
}

#[test]
fn dispute_then_resolve_releases_the_amount() {
    let (_, accounts) = ledger_after(&[deposit(1, 1, "1.0001"), dispute(1, 1), resolve(1, 1)]);
    balances_are(&accounts, 1, "1.0001", "0", "1.0001", false);
}

#[test]
fn dispute_then_chargeback_removes_the_amount_and_locks() {
    let (_, accounts) = ledger_after(&[deposit(1, 1, "1.0001"), dispute(1, 1), chargeback(1, 1)]);
    balances_are(&accounts, 1, "0", "0", "0", true);
}

#[test]
fn deposit_then_withdrawal_leaves_the_rest() {
    let (_, accounts) = ledger_after(&[deposit(1, 1, "1"), withdraw(1, 2, "0.5")]);
    balances_are(&accounts, 1, "0.5", "0", "0.5", false);
}

#[test]
fn withdrawal_beyond_the_balance_fails_and_keeps_the_balance() {
    let (mut ledger, mut accounts) = ledger_after(&[deposit(2, 2, "2.1")]);
    assert_eq!(
        ledger.process_transaction(&mut accounts, withdraw(2, 5, "3.0")),
        Err(TransactionFailure::InsufficientFunds(AccountId(2), TransactionId(5), amount("3.0")))
    );
    balances_are(&accounts, 2, "2.1", "0", "2.1", false);
    // The failed withdrawal was not recorded.
    assert_eq!(
        ledger.process_transaction(&mut accounts, dispute(2, 5)),
        Err(TransactionFailure::NonExistentTransaction(TransactionId(5)))
    );
}

#[test]
fn dispute_of_a_withdrawal_is_an_invalid_reference() {
    let (mut ledger, mut accounts) = ledger_after(&[deposit(2, 2, "2.1"), withdraw(2, 6, "1.1")]);
    for request in [dispute(2, 6), resolve(2, 6), chargeback(2, 6)] {
        assert_eq!(
            ledger.process_transaction(&mut accounts, request),
            Err(TransactionFailure::InvalidTransactionReference(
                TransactionId(6),
                request.transaction_type,
                TransactionType::Withdrawal(amount("1.1"))
            ))
        );
    }
    balances_are(&accounts, 2, "1", "0", "1", false);
}

#[test]
fn second_dispute_fails_as_redisputed() {
    let (mut ledger, mut accounts) = ledger_after(&[deposit(1, 1, "5"), dispute(1, 1)]);
    assert_eq!(
        ledger.process_transaction(&mut accounts, dispute(1, 1)),
        Err(TransactionFailure::RedisputedTransaction(TransactionId(1), DepositState::Disputed))
    );
    balances_are(&accounts, 1, "0", "5", "5", false);
    assert_eq!(ledger.process_transaction(&mut accounts, resolve(1, 1)), Ok(()));
    assert_eq!(
        ledger.process_transaction(&mut accounts, dispute(1, 1)),
        Err(TransactionFailure::RedisputedTransaction(TransactionId(1), DepositState::Resolved))
    );
    balances_are(&accounts, 1, "5", "0", "5", false);
}

#[test]
fn dispute_after_chargeback_fails_as_redisputed() {
    let (mut ledger, mut accounts) =
        ledger_after(&[deposit(1, 1, "5"), dispute(1, 1), chargeback(1, 1)]);
    assert_eq!(
        ledger.process_transaction(&mut accounts, dispute(1, 1)),
        Err(TransactionFailure::RedisputedTransaction(
            TransactionId(1),
            DepositState::ChargedBack
        ))
    );
    balances_are(&accounts, 1, "0", "0", "0", true);
}

#[test]
fn resolve_and_chargeback_need_a_dispute() {
    let (mut ledger, mut accounts) = ledger_after(&[deposit(1, 1, "5")]);
    for request in [resolve(1, 1), chargeback(1, 1)] {
        assert_eq!(
            ledger.process_transaction(&mut accounts, request),
            Err(TransactionFailure::UndisputedTransaction(TransactionId(1)))
        );
    }
    balances_are(&accounts, 1, "5", "0", "5", false);
}

#[test]
fn resolve_and_chargeback_fail_once_the_dispute_has_ended() {
    let (mut ledger, mut accounts) = ledger_after(&[deposit(1, 1, "5"), dispute(1, 1), resolve(1, 1)]);
    assert_eq!(
        ledger.process_transaction(&mut accounts, resolve(1, 1)),
        Err(TransactionFailure::FinalizedDispute(
            TransactionId(1),
            DepositState::Resolved,
            DepositState::Resolved
        ))
    );
    assert_eq!(
        ledger.process_transaction(&mut accounts, chargeback(1, 1)),
        Err(TransactionFailure::FinalizedDispute(
            TransactionId(1),
            DepositState::Resolved,
            DepositState::ChargedBack
        ))
    );
    balances_are(&accounts, 1, "5", "0", "5", false);

    let (mut ledger, mut accounts) =
        ledger_after(&[deposit(1, 1, "5"), dispute(1, 1), chargeback(1, 1)]);
    assert_eq!(
        ledger.process_transaction(&mut accounts, chargeback(1, 1)),
        Err(TransactionFailure::FinalizedDispute(
            TransactionId(1),
            DepositState::ChargedBack,
            DepositState::ChargedBack
        ))
    );
    assert_eq!(
        ledger.process_transaction(&mut accounts, resolve(1, 1)),
        Err(TransactionFailure::FinalizedDispute(
            TransactionId(1),
            DepositState::ChargedBack,
            DepositState::Resolved
        ))
    );
    balances_are(&accounts, 1, "0", "0", "0", true);
}

#[test]
fn only_a_deposit_opens_an_account() {
    let mut ledger = Ledger::new();
    let mut accounts = HashMap::new();
    for request in [withdraw(3, 7, "1.1"), dispute(3, 7), resolve(3, 7), chargeback(3, 7)] {
        assert_eq!(
            ledger.process_transaction(&mut accounts, request),
            Err(TransactionFailure::NonExistentAccount(AccountId(3)))
        );
        assert!(accounts.is_empty());
    }
    assert_eq!(ledger.process_transaction(&mut accounts, deposit(3, 8, "0")), Ok(()));
    balances_are(&accounts, 3, "0", "0", "0", false);
    assert_eq!(accounts.len(), 1);
}

#[test]
fn unknown_account_is_told_before_unknown_transaction() {
    let (mut ledger, mut accounts) = ledger_after(&[deposit(1, 1, "5")]);
    assert_eq!(
        ledger.process_transaction(&mut accounts, dispute(2, 9)),
        Err(TransactionFailure::NonExistentAccount(AccountId(2)))
    );
    assert_eq!(
        ledger.process_transaction(&mut accounts, dispute(1, 9)),
        Err(TransactionFailure::NonExistentTransaction(TransactionId(9)))
    );
}

#[test]
fn dispute_acts_on_the_account_that_it_names() {
    let (mut ledger, mut accounts) = ledger_after(&[deposit(1, 1, "5"), deposit(2, 2, "1")]);
    assert_eq!(ledger.process_transaction(&mut accounts, dispute(2, 1)), Ok(()));
    balances_are(&accounts, 1, "5", "0", "5", false);
    balances_are(&accounts, 2, "-4", "5", "1", false);
}

#[test]
fn later_deposit_of_the_same_identifier_replaces_the_record() {
    let (mut ledger, mut accounts) =
        ledger_after(&[deposit(1, 1, "5"), dispute(1, 1), deposit(1, 1, "2")]);
    balances_are(&accounts, 1, "2", "5", "7", false);
    assert_eq!(ledger.process_transaction(&mut accounts, dispute(1, 1)), Ok(()));
    balances_are(&accounts, 1, "0", "7", "7", false);
}

#[test]
fn deposit_is_recorded_in_the_state_it_brings() {
    let disputed = transaction(
        TransactionType::Deposit(amount("4"), DepositState::Disputed),
        1,
        1,
    );
    let (mut ledger, mut accounts) = ledger_after(&[disputed]);
    balances_are(&accounts, 1, "4", "0", "4", false);
    assert_eq!(
        ledger.process_transaction(&mut accounts, dispute(1, 1)),
        Err(TransactionFailure::RedisputedTransaction(TransactionId(1), DepositState::Disputed))
    );
}

#[test]
fn locked_account_still_takes_transactions() {
    let (mut ledger, mut accounts) =
        ledger_after(&[deposit(1, 1, "5"), dispute(1, 1), chargeback(1, 1)]);
    assert_eq!(ledger.process_transaction(&mut accounts, deposit(1, 2, "3")), Ok(()));
    assert_eq!(ledger.process_transaction(&mut accounts, withdraw(1, 3, "1")), Ok(()));
    balances_are(&accounts, 1, "2", "0", "2", true);
}

#[test]
fn try_process_gives_the_outcome_where_the_arithmetic_fits() {
    let mut ledger = Ledger::new();
    let mut accounts = HashMap::new();
    assert!(ledger.can_process(&accounts, &deposit(1, 1, "2")));
    assert_eq!(ledger.try_process_transaction(&mut accounts, deposit(1, 1, "2")), Some(Ok(())));
    assert_eq!(
        ledger.try_process_transaction(&mut accounts, withdraw(1, 2, "3")),
        Some(Err(TransactionFailure::InsufficientFunds(
            AccountId(1),
            TransactionId(2),
            amount("3")
        )))
    );
    assert_eq!(ledger.try_process_transaction(&mut accounts, dispute(1, 1)), Some(Ok(())));
    balances_are(&accounts, 1, "0", "2", "2", false);
}

#[test]
fn try_process_refuses_what_overflows_and_changes_nothing() {
    let max = Amount::from_parts(u32::MAX, u32::MAX, u32::MAX, false, 0).unwrap();
    let largest = transaction(TransactionType::Deposit(max, DepositState::Deposited), 1, 1);
    let again = transaction(TransactionType::Deposit(max, DepositState::Deposited), 1, 2);
    let mut ledger = Ledger::new();
    let mut accounts = HashMap::new();
    assert_eq!(ledger.try_process_transaction(&mut accounts, largest), Some(Ok(())));
    assert!(!ledger.can_process(&accounts, &again));
    assert_eq!(ledger.try_process_transaction(&mut accounts, again), None);
    assert_eq!(accounts.get(&1).unwrap().available(), max);
    // The refused deposit was not recorded.
    assert_eq!(
        ledger.try_process_transaction(&mut accounts, dispute(1, 2)),
        Some(Err(TransactionFailure::NonExistentTransaction(TransactionId(2))))
    );
    // A failing transaction asks for no arithmetic.
    assert!(ledger.can_process(&accounts, &withdraw(9, 3, "1")));
    assert!(ledger.can_process(&accounts, &resolve(1, 1)));
}

#[test]
fn rows_become_transactions() {
    let t = Transaction::try_from(row("deposit", 1, 2, Some("1.5"))).unwrap();
    assert_eq!(
        t.transaction_type,
        TransactionType::Deposit(amount("1.5"), DepositState::Deposited)
    );
    assert_eq!((t.account_id, t.transaction_id), (AccountId(1), TransactionId(2)));
    let t = Transaction::try_from(row("withdrawal", 3, 4, Some("0"))).unwrap();
    assert_eq!(t.transaction_type, TransactionType::Withdrawal(amount("0")));
    assert_eq!((t.account_id, t.transaction_id), (AccountId(3), TransactionId(4)));
    for (name, kind) in [
        ("dispute", TransactionType::Dispute),
        ("resolve", TransactionType::Resolve),
        ("chargeback", TransactionType::Chargeback),
    ] {
        for value in [None, Some("7"), Some("-7")] {
            let t = Transaction::try_from(row(name, 5, 6, value)).unwrap();
            assert_eq!(t.transaction_type, kind);
            assert_eq!((t.account_id, t.transaction_id), (AccountId(5), TransactionId(6)));
        }
    }
}

#[test]
fn rows_without_a_usable_amount_are_refused() {
    for name in ["deposit", "withdrawal"] {
        assert!(matches!(
            Transaction::try_from(row(name, 1, 1, None)),
            Err(RowParsingError::UndefinedAmount)
        ));
        assert!(matches!(
            Transaction::try_from(row(name, 1, 1, Some("-1.001"))),
            Err(RowParsingError::NegativeAmount(a)) if a == amount("-1.001")
        ));
    }
    let negative_zero = TransactionRow {
        transaction_type: "deposit".to_string(),
        account_id: AccountId(1),
        transaction_id: TransactionId(1),
        amount: Amount::from_parts(0, 0, 0, true, 0),
    };
    assert!(matches!(
        Transaction::try_from(negative_zero),
        Err(RowParsingError::NegativeAmount(_))
    ));
}

#[test]
fn rows_of_an_unknown_type_are_refused() {
    for name in ["unknown", "", "Deposit", "deposit ", "deposits"] {
        for value in [None, Some("1"), Some("-1")] {
            assert!(matches!(
                Transaction::try_from(row(name, 1, 1, value)),
                Err(RowParsingError::UnknownTransactionType(found)) if found == name
            ));
        }
    }
}

#[test]
fn process_row_tells_the_kinds_of_error_apart() {
    let mut ledger = Ledger::new();
    let mut accounts = HashMap::new();
    assert!(ledger.process_row(&mut accounts, row("deposit", 1, 1, Some("2"))).is_ok());
    assert!(matches!(
        ledger.process_row(&mut accounts, row("deposit", 1, 2, None)),
        Err(ProcessingError::Row(RowParsingError::UndefinedAmount))
    ));
    assert!(matches!(
        ledger.process_row(&mut accounts, row("withdrawal", 1, 3, Some("5"))),
        Err(ProcessingError::Ledger(TransactionFailure::InsufficientFunds(
            AccountId(1),
            TransactionId(3),
            _
        )))
    ));
    let max = TransactionRow {
        transaction_type: "deposit".to_string(),
        account_id: AccountId(1),
        transaction_id: TransactionId(4),
        amount: Amount::from_parts(u32::MAX, u32::MAX, u32::MAX, false, 0),
    };
    assert!(matches!(
        ledger.process_row(&mut accounts, max),
        Err(ProcessingError::Overflow(t)) if t.transaction_id == TransactionId(4)
    ));
    balances_are(&accounts, 1, "2", "0", "2", false);
}

#[test]
fn process_rows_runs_past_errors_and_keeps_their_order() {
    let rows = vec![
        row("deposit", 1, 1, Some("1.0001")),
        row("deposit", 2, 2, Some("2.1000")),
        row("bogus", 1, 3, Some("2.0")),
        row("deposit", 1, 3, Some("2.0")),
        row("withdrawal", 1, 4, Some("1.5")),
        row("withdrawal", 2, 5, Some("3.0")),
        row("withdrawal", 3, 7, Some("1.1")),
        row("dispute", 1, 1, None),
        row("resolve", 1, 1, None),
        row("chargeback", 1, 1, None),
        row("dispute", 2, 2, None),
    ];
    let (accounts, errors) = process_rows(rows);
    assert_eq!(accounts.len(), 2);
    balances_are(&accounts, 1, "1.5001", "0", "1.5001", false);
    balances_are(&accounts, 2, "0", "2.1", "2.1", false);
    assert_eq!(errors.len(), 4);
    assert!(matches!(
        &errors[0],
        ProcessingError::Row(RowParsingError::UnknownTransactionType(name)) if name == "bogus"
    ));
    assert!(matches!(
        &errors[1],
        ProcessingError::Ledger(TransactionFailure::InsufficientFunds(
            AccountId(2),
            TransactionId(5),
            a
        )) if *a == amount("3.0")
    ));
    assert!(matches!(
        &errors[2],
        ProcessingError::Ledger(TransactionFailure::NonExistentAccount(AccountId(3)))
    ));
    assert!(matches!(
        &errors[3],
        ProcessingError::Ledger(TransactionFailure::FinalizedDispute(
            TransactionId(1),
            DepositState::Resolved,
            DepositState::ChargedBack
        ))
    ));
}

#[test]
fn process_rows_of_nothing_gives_nothing() {
    let (accounts, errors) = process_rows(Vec::new());
    assert!(accounts.is_empty());
    assert!(errors.is_empty());
}
