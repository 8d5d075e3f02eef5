use csv_reader::account::AccountError;
use csv_reader::amount::Amount;
use csv_reader::application::{Application, ApplicationError};
use csv_reader::manager::{AccountManager, OrderError, TransactionError};
use csv_reader::storage::InMemoryAccountStorage;
use csv_reader::transaction::{TransactionKind, TransactionOrder};

fn order(tx_id: u32, client_id: u16, kind: TransactionKind) -> TransactionOrder {
    TransactionOrder { tx_id, client_id, kind }
}

fn units(n: i64) -> Amount {
    Amount::new(n, 0)
}

fn ledger() -> AccountManager<InMemoryAccountStorage> {
    AccountManager::new(InMemoryAccountStorage::new())
}

#[test]
fn simple_ledger() {
    let mut m = ledger();
    m.process_order(order(1, 1, TransactionKind::Deposit(units(100)))).unwrap();
    m.process_order(order(3, 1, TransactionKind::Withdrawal(units(1)))).unwrap();
    let a = m.get_account(1).unwrap();
    assert_eq!(a.available, units(99));
    assert_eq!(a.held, units(0));
    assert_eq!(a.total, units(99));
    assert!(!a.locked);
}

#[test]
fn dangling_dispute() {
    let mut m = ledger();
    let error = m.process_order(order(2, 2, TransactionKind::Dispute(3))).unwrap_err();
    assert_eq!(
        error,
        OrderError::Transaction(TransactionError::RelatedTransactionNotFound(3))
    );
    assert!(m.get_accounts().is_empty());
    m.process_order(order(1, 1, TransactionKind::Deposit(units(100)))).unwrap();
    m.process_order(order(3, 1, TransactionKind::Withdrawal(units(1)))).unwrap();
    assert!(m.process_order(order(3, 1, TransactionKind::Withdrawal(units(1)))).is_err());
    assert_eq!(m.get_account(1).unwrap().available, units(99));
}

#[test]
fn dispute_resolve_round_trip() {
    let mut m = ledger();
    m.process_order(order(1, 1, TransactionKind::Deposit(units(100)))).unwrap();
    m.process_order(order(2, 1, TransactionKind::Dispute(1))).unwrap();
    let a = m.get_account(1).unwrap();
    assert_eq!((a.available, a.held, a.total), (units(0), units(100), units(100)));
    m.process_order(order(3, 1, TransactionKind::Resolve(1))).unwrap();
    let a = m.get_account(1).unwrap();
    assert_eq!((a.available, a.held, a.total), (units(100), units(0), units(100)));
    // A resolved deposit can be disputed again.
    m.process_order(order(4, 1, TransactionKind::Dispute(1))).unwrap();
    assert_eq!(m.get_account(1).unwrap().held, units(100));
}

#[test]
fn chargeback_locks() {
    let mut m = ledger();
    m.process_order(order(1, 1, TransactionKind::Deposit(units(100)))).unwrap();
    m.process_order(order(2, 1, TransactionKind::Dispute(1))).unwrap();
    m.process_order(order(3, 1, TransactionKind::ChargeBack(1))).unwrap();
    let a = m.get_account(1).unwrap();
    assert_eq!((a.available, a.held, a.total), (units(0), units(0), units(0)));
    assert!(a.locked);
    let error = m.process_order(order(4, 1, TransactionKind::Deposit(units(5)))).unwrap_err();
    assert_eq!(error, OrderError::Account(AccountError::AccountLocked));
    assert!(m.get_account(1).unwrap().locked);
}

#[test]
fn duplicate_id() {
    let mut m = ledger();
    m.process_order(order(1, 1, TransactionKind::Deposit(units(100)))).unwrap();
    let error = m.process_order(order(1, 2, TransactionKind::Deposit(units(7)))).unwrap_err();
    assert_eq!(
        error,
        OrderError::Transaction(TransactionError::DuplicateTransactionId(1))
    );
    assert_eq!(m.get_account(1).unwrap().available, units(100));
    assert!(m.get_account(2).is_none());
}

#[test]
fn negative_available_via_dispute() {
    let mut m = ledger();
    m.process_order(order(1, 1, TransactionKind::Deposit(units(100)))).unwrap();
    m.process_order(order(2, 1, TransactionKind::Withdrawal(units(30)))).unwrap();
    assert_eq!(m.get_account(1).unwrap().available, units(70));
    m.process_order(order(3, 1, TransactionKind::Dispute(1))).unwrap();
    let a = m.get_account(1).unwrap();
    assert_eq!((a.available, a.held, a.total), (units(-30), units(100), units(70)));
}

#[test]
fn second_dispute_without_resolve_fails() {
    let mut m = ledger();
    m.process_order(order(1, 1, TransactionKind::Deposit(units(10)))).unwrap();
    m.process_order(order(2, 1, TransactionKind::Dispute(1))).unwrap();
    m.process_order(order(3, 1, TransactionKind::Deposit(units(1)))).unwrap();
    let error = m.process_order(order(4, 1, TransactionKind::Dispute(1))).unwrap_err();
    assert_eq!(
        error,
        OrderError::Transaction(TransactionError::AlreadyDisputedTransaction(1))
    );
    assert_eq!(m.get_account(1).unwrap().held, units(10));
}

#[test]
fn only_deposits_are_disputable() {
    let mut m = ledger();
    m.process_order(order(1, 1, TransactionKind::Deposit(units(10)))).unwrap();
    m.process_order(order(2, 1, TransactionKind::Withdrawal(units(3)))).unwrap();
    m.process_order(order(3, 1, TransactionKind::Dispute(1))).unwrap();
    let error = m.process_order(order(4, 1, TransactionKind::Dispute(2))).unwrap_err();
    assert_eq!(
        error,
        OrderError::Transaction(TransactionError::RelatedTransactionNotDisputable(2))
    );
    // A dispute order is not stored, so it cannot be disputed in turn.
    let error = m.process_order(order(5, 1, TransactionKind::Dispute(3))).unwrap_err();
    assert_eq!(
        error,
        OrderError::Transaction(TransactionError::RelatedTransactionNotFound(3))
    );
}

#[test]
fn totals_stay_balanced_through_a_run() {
    let mut m = ledger();
    let orders = [
        order(1, 1, TransactionKind::Deposit(units(50))),
        order(2, 2, TransactionKind::Deposit(units(20))),
        order(3, 1, TransactionKind::Withdrawal(units(60))),
        order(4, 1, TransactionKind::Dispute(1)),
        order(5, 2, TransactionKind::Dispute(2)),
        order(6, 2, TransactionKind::Resolve(2)),
        order(7, 1, TransactionKind::ChargeBack(1)),
        order(8, 1, TransactionKind::Withdrawal(units(1))),
    ];
    for o in orders {
        let _ = m.process_order(o);
        for a in m.get_accounts() {
            assert_eq!(a.total.units, a.available.units + a.held.units);
        }
    }
    let a = m.get_account(1).unwrap();
    assert!(a.locked);
    assert_eq!(a.total, units(0));
}

#[test]
fn application_needs_an_existing_file() {
    let app = Application::new("data.csv".to_string(), true, true).unwrap();
    assert_eq!(app.csv_file, "data.csv");
    assert_eq!(
        Application::new("missing.csv".to_string(), false, false).err(),
        Some(ApplicationError::FileNotFound("missing.csv".to_string()))
    );
    assert_eq!(
        Application::new("dir".to_string(), true, false).err(),
        Some(ApplicationError::NotAFile("dir".to_string()))
    );
}
