use csv_reader::account::AccountError;
use csv_reader::amount::Amount;
use csv_reader::manager::{AccountManager, OrderError, TransactionError};
use csv_reader::storage::InMemoryAccountStorage;
use csv_reader::transaction::{TransactionKind, TransactionOrder};

fn order(tx_id: u32, client_id: u16, kind: TransactionKind) -> TransactionOrder {
    TransactionOrder { tx_id, client_id, kind }
}

fn units(n: i64) -> Amount {
    Amount::new(n, 0)
}

#[test]
fn test_duplicate_disputable_transactions() {
    let mut manager = AccountManager::new(InMemoryAccountStorage::default());
    let _tx = manager
        .process_order(order(1, 1, TransactionKind::Deposit(units(1))))
        .unwrap();
    let error = manager
        .process_order(order(1, 2, TransactionKind::Withdrawal(units(1))))
        .unwrap_err();

    assert!(matches!(
        error,
        OrderError::Transaction(TransactionError::DuplicateTransactionId(tx_id)) if tx_id == 1
    ));
}

#[test]
fn account_manager_test_deposit() {
    let mut manager = AccountManager::new(InMemoryAccountStorage::default());
    let transaction = manager
        .process_order(order(1, 1, TransactionKind::Deposit(units(10))))
        .unwrap();
    assert!(matches!(
        transaction.kind,
        TransactionKind::Deposit(amount) if amount == units(10)
    ));
    let account = manager.get_account(1).unwrap();
    assert_eq!(account.available, units(10));
    let _tx = manager
        .process_order(order(2, 1, TransactionKind::Deposit(units(1))))
        .unwrap();
    let account = manager.get_account(1).unwrap();

    assert_eq!(account.available, units(11));
}

#[test]
fn test_withdrawal() {
    let mut manager = AccountManager::new(InMemoryAccountStorage::default());
    let _tx = manager
        .process_order(order(1, 1, TransactionKind::Deposit(units(10))))
        .unwrap();
    let transaction = manager
        .process_order(order(2, 1, TransactionKind::Withdrawal(units(1))))
        .unwrap();
    assert!(matches!(
        transaction.kind,
        TransactionKind::Withdrawal(amount) if amount == units(1)
    ));
    let account = manager.get_account(1).unwrap();
    assert_eq!(account.available, units(9));
}

#[test]
fn test_dispute_ok() {
    let mut manager = AccountManager::new(InMemoryAccountStorage::default());
    let _tx = manager
        .process_order(order(1, 1, TransactionKind::Deposit(units(10))))
        .unwrap();
    let transaction = manager
        .process_order(order(1, 1, TransactionKind::Dispute(1)))
        .unwrap();
    assert!(matches!(
        transaction.kind,
        TransactionKind::Dispute(related_tx_id) if related_tx_id == 1
    ));
    let account = manager.get_account(1).unwrap();
    assert_eq!(account.held, units(10));
    assert!(!account.locked);
}

#[test]
fn test_dispute_non_existing_transaction() {
    let mut manager = AccountManager::new(InMemoryAccountStorage::default());
    let error = manager
        .process_order(order(2, 1, TransactionKind::Dispute(2)))
        .unwrap_err();

    assert!(matches!(
        error,
        OrderError::Transaction(TransactionError::RelatedTransactionNotFound(tx_id)) if tx_id == 2
    ));
}

#[test]
fn test_dispute_a_non_deposit_transaction() {
    let mut manager = AccountManager::new(InMemoryAccountStorage::default());
    let _tx = manager
        .process_order(order(1, 1, TransactionKind::Deposit(units(10))))
        .unwrap();
    let _tx = manager
        .process_order(order(2, 1, TransactionKind::Withdrawal(units(1))))
        .unwrap();
    let error = manager
        .process_order(order(2, 2, TransactionKind::Dispute(2)))
        .unwrap_err();
    assert!(matches!(
        error,
        OrderError::Transaction(TransactionError::RelatedTransactionNotDisputable(tx_id)) if tx_id == 2
    ));
}

#[test]
fn dispute_an_already_disputed_transaction() {
    let mut manager = AccountManager::new(InMemoryAccountStorage::default());
    let _tx = manager
        .process_order(order(1, 1, TransactionKind::Deposit(units(10))))
        .unwrap();
    let _tx = manager
        .process_order(order(1, 2, TransactionKind::Dispute(1)))
        .unwrap();
    let error = manager
        .process_order(order(1, 3, TransactionKind::Dispute(1)))
        .unwrap_err();
    assert!(matches!(
        error,
        OrderError::Transaction(TransactionError::AlreadyDisputedTransaction(tx_id)) if tx_id == 1
    ));
}

#[test]
fn resolve_a_disputed_transaction() {
    let mut manager = AccountManager::new(InMemoryAccountStorage::default());
    let _tx = manager
        .process_order(order(1, 1, TransactionKind::Deposit(units(10))))
        .unwrap();
    let _tx = manager
        .process_order(order(1, 2, TransactionKind::Dispute(1)))
        .unwrap();
    let transaction = manager
        .process_order(order(1, 2, TransactionKind::Resolve(1)))
        .unwrap();
    assert!(matches!(
        transaction.kind,
        TransactionKind::Resolve(related_tx_id) if related_tx_id == 1
    ));
    let account = manager.get_account(1).unwrap();
    assert_eq!(account.available, units(10));
    assert_eq!(account.held, units(0));
}

#[test]
fn resolve_a_non_disputed_transaction() {
    let mut manager = AccountManager::new(InMemoryAccountStorage::default());
    let _tx = manager
        .process_order(order(1, 1, TransactionKind::Deposit(units(10))))
        .unwrap();
    let error = manager
        .process_order(order(1, 2, TransactionKind::Resolve(1)))
        .unwrap_err();
    assert!(matches!(
        error,
        OrderError::Transaction(TransactionError::NonDisputedTransaction(tx_id)) if tx_id == 1
    ));
}

#[test]
fn resolve_a_non_existing_transaction() {
    let mut manager = AccountManager::new(InMemoryAccountStorage::default());
    let error = manager
        .process_order(order(2, 1, TransactionKind::Resolve(2)))
        .unwrap_err();
    assert!(matches!(
        error,
        OrderError::Transaction(TransactionError::NonDisputedTransaction(tx_id)) if tx_id == 2
    ));
}

#[test]
fn chargeback_a_disputed_transaction() {
    let mut manager = AccountManager::new(InMemoryAccountStorage::default());
    let _tx = manager
        .process_order(order(1, 1, TransactionKind::Deposit(units(10))))
        .unwrap();
    let _tx = manager
        .process_order(order(1, 2, TransactionKind::Dispute(1)))
        .unwrap();
    let transaction = manager
        .process_order(order(1, 2, TransactionKind::ChargeBack(1)))
        .unwrap();
    assert!(matches!(
        transaction.kind,
        TransactionKind::ChargeBack(related_tx_id) if related_tx_id == 1
    ));
    let account = manager.get_account(1).unwrap();
    assert_eq!(account.available, units(0));
    assert_eq!(account.held, units(0));
    assert!(account.locked);
}

#[test]
fn chargeback_a_non_disputed_transaction() {
    let mut manager = AccountManager::new(InMemoryAccountStorage::default());
    let _tx = manager
        .process_order(order(1, 1, TransactionKind::Deposit(units(10))))
        .unwrap();
    let error = manager
        .process_order(order(1, 2, TransactionKind::ChargeBack(1)))
        .unwrap_err();
    assert!(matches!(
        error,
        OrderError::Transaction(TransactionError::NonDisputedTransaction(tx_id)) if tx_id == 1
    ));
    let account = manager.get_account(1).unwrap();
    assert_eq!(account.available, units(10));
    assert_eq!(account.held, units(0));
    assert!(!account.locked);
}

#[test]
fn chargeback_a_non_existing_transaction() {
    let mut manager = AccountManager::new(InMemoryAccountStorage::default());
    let error = manager
        .process_order(order(2, 1, TransactionKind::ChargeBack(2)))
        .unwrap_err();
    assert!(matches!(
        error,
        OrderError::Transaction(TransactionError::NonDisputedTransaction(tx_id)) if tx_id == 2
    ));
}

#[test]
fn process_order_walkthrough() {
    let mut manager = AccountManager::new(InMemoryAccountStorage::default());
    let transaction = manager
        .process_order(order(1, 1, TransactionKind::Deposit(units(100))))
        .unwrap();
    assert_eq!(transaction.tx_id, 1);
    assert_eq!(manager.get_account(1).unwrap().available, units(100));

    manager
        .process_order(order(2, 1, TransactionKind::Withdrawal(units(30))))
        .unwrap();
    assert_eq!(manager.get_account(1).unwrap().available, units(70));

    manager
        .process_order(order(3, 2, TransactionKind::Dispute(1)))
        .unwrap();
    assert_eq!(manager.get_account(1).unwrap().available, units(-30));

    manager
        .process_order(order(4, 1, TransactionKind::Deposit(units(100))))
        .unwrap();
    manager
        .process_order(order(5, 2, TransactionKind::Resolve(1)))
        .unwrap();
    assert_eq!(manager.get_account(1).unwrap().available, units(170));

    manager
        .process_order(order(6, 2, TransactionKind::Dispute(4)))
        .unwrap();
    manager
        .process_order(order(7, 2, TransactionKind::ChargeBack(4)))
        .unwrap();
    let account = manager.get_account(1).unwrap();
    assert_eq!(account.available, units(70));
    assert!(account.locked);
    assert!(manager.get_account(2).is_none());
}

#[test]
fn withdrawal_from_unknown_client_creates_no_account() {
    let mut manager = AccountManager::new(InMemoryAccountStorage::default());
    let error = manager
        .process_order(order(1, 9, TransactionKind::Withdrawal(units(1))))
        .unwrap_err();
    assert_eq!(
        error,
        OrderError::Account(AccountError::InsufficientAvailableFunds {
            available: units(0),
            requested: units(1)
        })
    );
    assert!(manager.get_account(9).is_none());
    assert!(manager.get_accounts().is_empty());
}

#[test]
fn deposit_beyond_the_largest_amount_is_refused() {
    let mut manager = AccountManager::new(InMemoryAccountStorage::default());
    let big = Amount { units: i128::MAX };
    manager
        .process_order(order(1, 1, TransactionKind::Deposit(big)))
        .unwrap();
    let error = manager
        .process_order(order(2, 1, TransactionKind::Deposit(Amount { units: 1 })))
        .unwrap_err();
    assert_eq!(error, OrderError::AmountOverflow);
    assert_eq!(manager.get_account(1).unwrap().available, big);
}

#[test]
fn get_accounts_lists_clients_in_first_seen_order() {
    let mut manager = AccountManager::new(InMemoryAccountStorage::default());
    manager
        .process_order(order(1, 3, TransactionKind::Deposit(units(1))))
        .unwrap();
    manager
        .process_order(order(2, 1, TransactionKind::Deposit(units(2))))
        .unwrap();
    manager
        .process_order(order(3, 3, TransactionKind::Deposit(units(3))))
        .unwrap();
    let accounts = manager.get_accounts();
    assert_eq!(accounts.len(), 2);
    assert_eq!(accounts[0].client_id, 3);
    assert_eq!(accounts[0].available, units(4));
    assert_eq!(accounts[1].client_id, 1);
    assert_eq!(accounts[1].available, units(2));
    for account in &accounts {
        assert_eq!(account.total.units, account.available.units + account.held.units);
    }
}

#[test]
fn returned_account_is_a_copy() {
    let mut manager = AccountManager::new(InMemoryAccountStorage::default());
    manager
        .process_order(order(1, 1, TransactionKind::Deposit(units(5))))
        .unwrap();
    let mut copy = manager.get_account(1).unwrap();
    copy.locked = true;
    copy.available = units(1000);
    let account = manager.get_account(1).unwrap();
    assert!(!account.locked);
    assert_eq!(account.available, units(5));
}
