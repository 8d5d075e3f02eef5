//! The ledger: it turns transaction orders into transactions and applies
//! them to the accounts, keeping accounts and transactions consistent.

use vstd::prelude::*;

use crate::account::{Account, AccountError, ClientId};
use crate::amount::{in_range, Amount};
use crate::storage::{lists_accounts, AccountStorage};
use crate::transaction::{transaction_of, Transaction, TransactionKind, TransactionOrder, TxId};

verus! {

/// Why an order was refused by the ledger itself.
#[derive(Clone, Copy, Debug, PartialEq, Eq, Structural)]
pub enum TransactionError {
    /// A transaction with this identifier was already accepted.
    DuplicateTransactionId(TxId),
    /// No transaction with this identifier was accepted.
    RelatedTransactionNotFound(TxId),
    /// The transaction with this identifier is not under dispute.
    NonDisputedTransaction(TxId),
    /// The transaction with this identifier is already under dispute.
    AlreadyDisputedTransaction(TxId),
    /// The transaction with this identifier is not a deposit, and only
    /// deposits can be disputed.
    RelatedTransactionNotDisputable(TxId),
}

/// Why an order was refused.
#[derive(Clone, Copy, Debug, PartialEq, Eq, Structural)]
pub enum OrderError {
    /// The account refused the operation.
    Account(AccountError),
    /// The order does not fit the transactions accepted so far.
    Transaction(TransactionError),
    /// A balance would leave the range that an [`Amount`] can hold.
    AmountOverflow,
}

/// The content of a ledger: its accounts by client, its accepted
/// transactions by identifier, and the identifiers of the disputed ones.
pub struct Ledger {
    pub accounts: Map<ClientId, Account>,
    pub transactions: Map<TxId, Transaction>,
    pub disputed: Set<TxId>,
}

/// The content of `storage`.
pub open spec fn ledger_of<S: AccountStorage>(storage: &S) -> Ledger {
    Ledger {
        accounts: storage.accounts(),
        transactions: storage.transactions(),
        disputed: storage.disputed(),
    }
}

/// The consistency of a ledger: each account is stored under its client and
/// its total is the sum of its available and held funds; each transaction is
/// stored under its identifier, is a deposit or a withdrawal of a strictly
/// positive amount, and its client has an account; only stored deposits are
/// disputed.
pub open spec fn ledger_wf(l: Ledger) -> bool {
    &&& forall|c: ClientId| #[trigger]
        l.accounts.contains_key(c) ==> l.accounts[c].client_id == c && l.accounts[c].wf()
    &&& forall|id: TxId| #[trigger]
        l.transactions.contains_key(id) ==> {
            let t = l.transactions[id];
            &&& t.tx_id == id
            &&& t.kind is Deposit || t.kind is Withdrawal
            &&& t.kind.wf()
            &&& l.accounts.contains_key(t.client_id)
        }
    &&& forall|id: TxId| #[trigger]
        l.disputed.contains(id) ==> l.transactions.contains_key(id)
            && l.transactions[id].kind is Deposit
}

/// A new unlocked account of `client_id` with no funds.
pub open spec fn fresh_account(client_id: ClientId) -> Account {
    Account {
        client_id,
        available: Amount { units: 0 },
        held: Amount { units: 0 },
        total: Amount { units: 0 },
        locked: false,
    }
}

/// The account of `client_id` in `l`, or a fresh one where it has none.
pub open spec fn account_or_fresh(l: Ledger, client_id: ClientId) -> Account {
    if l.accounts.contains_key(client_id) {
        l.accounts[client_id]
    } else {
        fresh_account(client_id)
    }
}

/// `a` with the given available and held funds, their sum as total, and the
/// given lock.
pub open spec fn with_funds(a: Account, available: int, held: int, locked: bool) -> Account {
    Account {
        client_id: a.client_id,
        available: Amount { units: available as i128 },
        held: Amount { units: held as i128 },
        total: Amount { units: (available + held) as i128 },
        locked,
    }
}

/// `l` with `a` stored for its client and the disputed set `disputed`.
pub open spec fn with_account(l: Ledger, a: Account, disputed: Set<TxId>) -> Ledger {
    Ledger { accounts: l.accounts.insert(a.client_id, a), transactions: l.transactions, disputed }
}

/// `l` unchanged, and the error `e`.
pub open spec fn refused(l: Ledger, e: OrderError) -> (Ledger, Result<Transaction, OrderError>) {
    (l, Err(e))
}

/// The outcome of the deposit `t` of `amount`.
pub open spec fn apply_deposit(l: Ledger, t: Transaction, amount: Amount) -> (Ledger, Result<
    Transaction,
    OrderError,
>) {
    let a = account_or_fresh(l, t.client_id);
    if l.transactions.contains_key(t.tx_id) {
        refused(l, OrderError::Transaction(TransactionError::DuplicateTransactionId(t.tx_id)))
    } else if a.locked {
        refused(l, OrderError::Account(AccountError::AccountLocked))
    } else if !in_range(a.available@ + amount@) || !in_range(a.total@ + amount@) {
        refused(l, OrderError::AmountOverflow)
    } else {
        let l2 = with_account(l, with_funds(a, a.available@ + amount@, a.held@, a.locked), l.disputed);
        (Ledger { transactions: l.transactions.insert(t.tx_id, t), ..l2 }, Ok(t))
    }
}

/// The outcome of the withdrawal `t` of `amount`.
pub open spec fn apply_withdrawal(l: Ledger, t: Transaction, amount: Amount) -> (Ledger, Result<
    Transaction,
    OrderError,
>) {
    let a = account_or_fresh(l, t.client_id);
    if l.transactions.contains_key(t.tx_id) {
        refused(l, OrderError::Transaction(TransactionError::DuplicateTransactionId(t.tx_id)))
    } else if a.locked {
        refused(l, OrderError::Account(AccountError::AccountLocked))
    } else if a.available@ < amount@ {
        refused(
            l,
            OrderError::Account(
                AccountError::InsufficientAvailableFunds { available: a.available, requested: amount },
            ),
        )
    } else {
        let l2 = with_account(l, with_funds(a, a.available@ - amount@, a.held@, a.locked), l.disputed);
        (Ledger { transactions: l.transactions.insert(t.tx_id, t), ..l2 }, Ok(t))
    }
}

/// The outcome of the dispute `t` of the transaction `related`.
pub open spec fn apply_dispute(l: Ledger, t: Transaction, related: TxId) -> (Ledger, Result<
    Transaction,
    OrderError,
>) {
    if l.disputed.contains(related) {
        refused(l, OrderError::Transaction(TransactionError::AlreadyDisputedTransaction(related)))
    } else if !l.transactions.contains_key(related) {
        refused(l, OrderError::Transaction(TransactionError::RelatedTransactionNotFound(related)))
    } else {
        match l.transactions[related].kind {
            TransactionKind::Deposit(amount) => {
                let a = account_or_fresh(l, l.transactions[related].client_id);
                if !in_range(a.available@ - amount@) || !in_range(a.held@ + amount@) {
                    refused(l, OrderError::AmountOverflow)
                } else {
                    (
                        with_account(
                            l,
                            with_funds(a, a.available@ - amount@, a.held@ + amount@, a.locked),
                            l.disputed.insert(related),
                        ),
                        Ok(t),
                    )
                }
            },
            _ => refused(
                l,
                OrderError::Transaction(TransactionError::RelatedTransactionNotDisputable(related)),
            ),
        }
    }
}

/// The outcome of the resolve `t` of the dispute of `related`.
pub open spec fn apply_resolve(l: Ledger, t: Transaction, related: TxId) -> (Ledger, Result<
    Transaction,
    OrderError,
>) {
    if !l.disputed.contains(related) {
        refused(l, OrderError::Transaction(TransactionError::NonDisputedTransaction(related)))
    } else {
        match l.transactions[related].kind {
            TransactionKind::Deposit(amount) => {
                let a = account_or_fresh(l, l.transactions[related].client_id);
                if amount@ > a.held@ {
                    refused(
                        l,
                        OrderError::Account(
                            AccountError::InsufficientHeldFunds { held: a.held, requested: amount },
                        ),
                    )
                } else if !in_range(a.available@ + amount@) {
                    refused(l, OrderError::AmountOverflow)
                } else {
                    (
                        with_account(
                            l,
                            with_funds(a, a.available@ + amount@, a.held@ - amount@, a.locked),
                            l.disputed.remove(related),
                        ),
                        Ok(t),
                    )
                }
            },
            _ => (l, Ok(t)),
        }
    }
}

/// The outcome of the chargeback `t` of the disputed `related`.
pub open spec fn apply_chargeback(l: Ledger, t: Transaction, related: TxId) -> (Ledger, Result<
    Transaction,
    OrderError,
>) {
    if !l.disputed.contains(related) {
        refused(l, OrderError::Transaction(TransactionError::NonDisputedTransaction(related)))
    } else {
        match l.transactions[related].kind {
            TransactionKind::Deposit(amount) => {
                let a = account_or_fresh(l, l.transactions[related].client_id);
                if amount@ > a.held@ {
                    refused(
                        l,
                        OrderError::Account(
                            AccountError::InsufficientHeldFunds { held: a.held, requested: amount },
                        ),
                    )
                } else {
                    (
                        with_account(
                            l,
                            with_funds(a, a.available@, a.held@ - amount@, true),
                            l.disputed.remove(related),
                        ),
                        Ok(t),
                    )
                }
            },
            _ => (l, Ok(t)),
        }
    }
}

/// The ledger after `order`, and what processing it returns.
pub open spec fn apply(l: Ledger, order: TransactionOrder) -> (Ledger, Result<
    Transaction,
    OrderError,
>) {
    let t = transaction_of(order);
    match order.kind {
        TransactionKind::Deposit(amount) => apply_deposit(l, t, amount),
        TransactionKind::Withdrawal(amount) => apply_withdrawal(l, t, amount),
        TransactionKind::Dispute(related) => apply_dispute(l, t, related),
        TransactionKind::Resolve(related) => apply_resolve(l, t, related),
        TransactionKind::ChargeBack(related) => apply_chargeback(l, t, related),
    }
}

/// Every order keeps a consistent ledger consistent.
pub proof fn lemma_apply_keeps_wf(l: Ledger, order: TransactionOrder)
    requires
        ledger_wf(l),
        order.kind.wf(),
    ensures
        ledger_wf(apply(l, order).0),
{
    let l2 = apply(l, order).0;
    assert forall|c: ClientId| #[trigger] l2.accounts.contains_key(c) implies l2.accounts[c].client_id
        == c && l2.accounts[c].wf() by {
        if l.accounts.contains_key(c) {
        }
    }
    assert forall|id: TxId| #[trigger] l2.transactions.contains_key(id) implies {
        let t = l2.transactions[id];
        &&& t.tx_id == id
        &&& t.kind is Deposit || t.kind is Withdrawal
        &&& t.kind.wf()
        &&& l2.accounts.contains_key(t.client_id)
    } by {
        if l.transactions.contains_key(id) {
        }
    }
    assert forall|id: TxId| #[trigger] l2.disputed.contains(id) implies l2.transactions.contains_key(
        id,
    ) && l2.transactions[id].kind is Deposit by {
        if l.transactions.contains_key(id) {
        }
    }
}

/// Every account of a consistent ledger, after any order, has a total equal
/// to its available plus its held funds.
pub proof fn lemma_totals_balanced(l: Ledger, order: TransactionOrder)
    requires
        ledger_wf(l),
        order.kind.wf(),
    ensures
        forall|c: ClientId| #[trigger]
            apply(l, order).0.accounts.contains_key(c) ==> apply(l, order).0.accounts[c].total@
                == apply(l, order).0.accounts[c].available@ + apply(l, order).0.accounts[c].held@,
{
    lemma_apply_keeps_wf(l, order);
}

/// A transaction identifier is accepted at most once: a deposit or a
/// withdrawal that reuses one is refused as a duplicate and changes nothing,
/// and no order changes or removes a stored transaction.
pub proof fn lemma_transaction_ids_unique(l: Ledger, order: TransactionOrder)
    ensures
        (order.kind is Deposit || order.kind is Withdrawal) && l.transactions.contains_key(
            order.tx_id,
        ) ==> apply(l, order) == refused(
            l,
            OrderError::Transaction(TransactionError::DuplicateTransactionId(order.tx_id)),
        ),
        forall|id: TxId| #[trigger]
            l.transactions.contains_key(id) ==> apply(l, order).0.transactions.contains_key(id)
                && apply(l, order).0.transactions[id] == l.transactions[id],
{
}

/// A refused order leaves the whole ledger unchanged.
pub proof fn lemma_refused_order_changes_nothing(l: Ledger, order: TransactionOrder)
    ensures
        apply(l, order).1 is Err ==> apply(l, order).0 == l,
{
}

/// A locked account of a consistent ledger stays locked, whatever order
/// comes.
pub proof fn lemma_lock_is_permanent(l: Ledger, order: TransactionOrder, client_id: ClientId)
    requires
        ledger_wf(l),
        l.accounts.contains_key(client_id),
        l.accounts[client_id].locked,
    ensures
        apply(l, order).0.accounts.contains_key(client_id),
        apply(l, order).0.accounts[client_id].locked,
{
}

/// In a consistent ledger only deposits are ever disputed: after any order
/// every disputed transaction is a deposit, and a dispute of a stored
/// transaction that is not a deposit is refused as not disputable.
pub proof fn lemma_only_deposits_disputed(l: Ledger, order: TransactionOrder)
    requires
        ledger_wf(l),
        order.kind.wf(),
    ensures
        forall|id: TxId| #[trigger]
            apply(l, order).0.disputed.contains(id) ==> apply(l, order).0.transactions[id].kind is Deposit,
        order.kind matches TransactionKind::Dispute(related) ==> (l.transactions.contains_key(
            related,
        ) && !(l.transactions[related].kind is Deposit) ==> apply(l, order) == refused(
            l,
            OrderError::Transaction(TransactionError::RelatedTransactionNotDisputable(related)),
        )),
{
    lemma_apply_keeps_wf(l, order);
}

/// A dispute that succeeds leaves its transaction disputed; it stays so
/// through every order but a resolve or a chargeback of it; and a dispute of
/// a disputed transaction is refused as already disputed.
pub proof fn lemma_dispute_twice_refused(l: Ledger, order: TransactionOrder, related: TxId)
    ensures
        order.kind == TransactionKind::Dispute(related) && apply(l, order).1 is Ok
            ==> apply(l, order).0.disputed.contains(related),
        l.disputed.contains(related) && order.kind != TransactionKind::Resolve(related)
            && order.kind != TransactionKind::ChargeBack(related)
            ==> apply(l, order).0.disputed.contains(related),
        l.disputed.contains(related) && order.kind == TransactionKind::Dispute(related)
            ==> apply(l, order) == refused(
            l,
            OrderError::Transaction(TransactionError::AlreadyDisputedTransaction(related)),
        ),
{
}

/// The ledger service. It is the only path by which its storage changes, and
/// it keeps the storage consistent: each order is applied whole or not at all.
pub struct AccountManager<S: AccountStorage> {
    store: S,
}

impl<S: AccountStorage> AccountManager<S> {
    /// The content of the ledger.
    pub closed spec fn ledger(&self) -> Ledger {
        ledger_of(&self.store)
    }

    /// The storage's own consistency.
    pub closed spec fn storage_wf(&self) -> bool {
        self.store.wf()
    }

    /// The consistency that every operation keeps.
    pub open spec fn wf(&self) -> bool {
        self.storage_wf() && ledger_wf(self.ledger())
    }

    /// A ledger kept in `storage`.
    pub fn new(storage: S) -> (r: AccountManager<S>)
        requires
            storage.wf(),
            ledger_wf(ledger_of(&storage)),
        ensures
            r.wf(),
            r.ledger() == ledger_of(&storage),
    {
        AccountManager { store: storage }
    }

    /// Applies `order` to the ledger and returns the resulting transaction;
    /// where the order is refused, the ledger is left unchanged.
    pub fn process_order(&mut self, order: TransactionOrder) -> (r: Result<Transaction, OrderError>)
        requires
            old(self).wf(),
            order.kind.wf(),
        ensures
            final(self).wf(),
            (final(self).ledger(), r) == apply(old(self).ledger(), order),
    {
        let transaction = Transaction::from(order);
        match transaction.kind {
            TransactionKind::Deposit(amount) => self.process_deposit(transaction, amount),
            TransactionKind::Withdrawal(amount) => self.process_withdrawal(transaction, amount),
            TransactionKind::Dispute(tx_id) => self.process_dispute(transaction, tx_id),
            TransactionKind::Resolve(tx_id) => self.process_resolve(transaction, tx_id),
            TransactionKind::ChargeBack(tx_id) => self.process_chargeback(transaction, tx_id),
        }
    }

    /// The account of `client_id`, if it has one; a copy, which does not
    /// change the ledger when changed.
    pub fn get_account(&self, client_id: ClientId) -> (r: Option<Account>)
        requires
            self.wf(),
        ensures
            r == (if self.ledger().accounts.contains_key(client_id) {
                Some(self.ledger().accounts[client_id])
            } else {
                None
            }),
            r matches Some(a) ==> a.wf() && a.client_id == client_id,
    {
        self.store.get_account(&client_id)
    }

    /// Every account once; each has a total equal to its available plus its
    /// held funds.
    pub fn get_accounts(&self) -> (r: Vec<Account>)
        requires
            self.wf(),
        ensures
            lists_accounts(r@, self.ledger().accounts),
            forall|i: int| 0 <= i < r@.len() ==> (#[trigger] r@[i]).wf(),
    {
        let r = self.store.get_accounts();
        assert forall|i: int| 0 <= i < r@.len() implies (#[trigger] r@[i]).wf() by {
            assert(self.ledger().accounts.contains_key(r@[i].client_id));
        }
        r
    }

    fn get_disputable_transaction(&self, tx_id: TxId) -> (r: Option<Transaction>)
        requires
            self.wf(),
        ensures
            r == (if self.ledger().transactions.contains_key(tx_id) {
                Some(self.ledger().transactions[tx_id])
            } else {
                None
            }),
    {
        self.store.get_transaction(&tx_id)
    }

    fn account_or_new(&self, client_id: ClientId) -> (r: Account)
        requires
            self.wf(),
        ensures
            r == account_or_fresh(self.ledger(), client_id),
            r.wf(),
    {
        match self.store.get_account(&client_id) {
            Some(account) => {
                assert(self.ledger().accounts.contains_key(client_id));
                account
            },
            None => Account::new(client_id),
        }
    }

    fn process_deposit(&mut self, transaction: Transaction, amount: Amount) -> (r: Result<
        Transaction,
        OrderError,
    >)
        requires
            old(self).wf(),
            amount@ > 0,
            transaction.kind == TransactionKind::Deposit(amount),
        ensures
            final(self).wf(),
            (final(self).ledger(), r) == apply_deposit(old(self).ledger(), transaction, amount),
    {
        if self.get_disputable_transaction(transaction.tx_id).is_some() {
            return Err(
                OrderError::Transaction(TransactionError::DuplicateTransactionId(transaction.tx_id)),
            );
        }
        let mut account = self.account_or_new(transaction.client_id);
        if !account.locked && (account.available.units > i128::MAX - amount.units
            || account.total.units > i128::MAX - amount.units) {
            return Err(OrderError::AmountOverflow);
        }
        if let Err(e) = account.deposit(amount) {
            return Err(OrderError::Account(e));
        }
        let _ = self.store.store_account(account);
        let r = self.store.store_transaction(transaction);
        proof {
            let l = old(self).ledger();
            let a = account_or_fresh(l, transaction.client_id);
            assert(account == with_funds(a, a.available@ + amount@, a.held@, a.locked));
            assert(ledger_wf(self.ledger()));
        }
        match r {
            Ok(t) => Ok(t),
            Err(_) => Err(
                OrderError::Transaction(TransactionError::DuplicateTransactionId(transaction.tx_id)),
            ),
        }
    }

    fn process_withdrawal(&mut self, transaction: Transaction, amount: Amount) -> (r: Result<
        Transaction,
        OrderError,
    >)
        requires
            old(self).wf(),
            amount@ > 0,
            transaction.kind == TransactionKind::Withdrawal(amount),
        ensures
            final(self).wf(),
            (final(self).ledger(), r) == apply_withdrawal(old(self).ledger(), transaction, amount),
    {
        if self.get_disputable_transaction(transaction.tx_id).is_some() {
            return Err(
                OrderError::Transaction(TransactionError::DuplicateTransactionId(transaction.tx_id)),
            );
        }
        let mut account = self.account_or_new(transaction.client_id);
        if let Err(e) = account.withdraw(amount) {
            return Err(OrderError::Account(e));
        }
        let _ = self.store.store_account(account);
        let r = self.store.store_transaction(transaction);
        proof {
            let l = old(self).ledger();
            let a = account_or_fresh(l, transaction.client_id);
            assert(account == with_funds(a, a.available@ - amount@, a.held@, a.locked));
            assert(ledger_wf(self.ledger()));
        }
        match r {
            Ok(t) => Ok(t),
            Err(_) => Err(
                OrderError::Transaction(TransactionError::DuplicateTransactionId(transaction.tx_id)),
            ),
        }
    }

    fn process_dispute(&mut self, transaction: Transaction, related_transaction_id: TxId) -> (r:
        Result<Transaction, OrderError>)
        requires
            old(self).wf(),
        ensures
            final(self).wf(),
            (final(self).ledger(), r) == apply_dispute(
                old(self).ledger(),
                transaction,
                related_transaction_id,
            ),
    {
        if let Some(true) = self.store.is_disputed(&related_transaction_id) {
            return Err(
                OrderError::Transaction(
                    TransactionError::AlreadyDisputedTransaction(related_transaction_id),
                ),
            );
        }
        let related = match self.store.get_transaction(&related_transaction_id) {
            Some(t) => t,
            None => {
                return Err(
                    OrderError::Transaction(
                        TransactionError::RelatedTransactionNotFound(related_transaction_id),
                    ),
                );
            },
        };
        let amount = match related.kind {
            TransactionKind::Deposit(amount) => amount,
            _ => {
                return Err(
                    OrderError::Transaction(
                        TransactionError::RelatedTransactionNotDisputable(related_transaction_id),
                    ),
                );
            },
        };
        let mut account = self.account_or_new(related.client_id);
        if account.available.units < i128::MIN + amount.units || account.held.units > i128::MAX
            - amount.units {
            return Err(OrderError::AmountOverflow);
        }
        let _ = account.dispute(amount);
        let _ = self.store.store_account(account);
        let _ = self.store.set_disputed(related_transaction_id, true);
        proof {
            let l = old(self).ledger();
            let a = account_or_fresh(l, related.client_id);
            assert(account == with_funds(
                a,
                a.available@ - amount@,
                a.held@ + amount@,
                a.locked,
            ));
            assert(ledger_wf(self.ledger()));
        }
        Ok(transaction)
    }

    fn process_resolve(&mut self, transaction: Transaction, related_transaction_id: TxId) -> (r:
        Result<Transaction, OrderError>)
        requires
            old(self).wf(),
        ensures
            final(self).wf(),
            (final(self).ledger(), r) == apply_resolve(
                old(self).ledger(),
                transaction,
                related_transaction_id,
            ),
    {
        if !matches!(self.store.is_disputed(&related_transaction_id), Some(true)) {
            return Err(
                OrderError::Transaction(
                    TransactionError::NonDisputedTransaction(related_transaction_id),
                ),
            );
        }
        let related = match self.store.get_transaction(&related_transaction_id) {
            Some(t) => t,
            None => {
                return Ok(transaction);
            },
        };
        if let TransactionKind::Deposit(amount) = related.kind {
            let mut account = self.account_or_new(related.client_id);
            if amount.units <= account.held.units && account.available.units > i128::MAX
                - amount.units {
                return Err(OrderError::AmountOverflow);
            }
            if let Err(e) = account.resolve(amount) {
                return Err(OrderError::Account(e));
            }
            let _ = self.store.store_account(account);
            let _ = self.store.set_disputed(related_transaction_id, false);
            proof {
                let l = old(self).ledger();
                let a = account_or_fresh(l, related.client_id);
                assert(account == with_funds(
                    a,
                    a.available@ + amount@,
                    a.held@ - amount@,
                    a.locked,
                ));
                assert(ledger_wf(self.ledger()));
            }
        }
        Ok(transaction)
    }

    fn process_chargeback(&mut self, transaction: Transaction, related_transaction_id: TxId) -> (r:
        Result<Transaction, OrderError>)
        requires
            old(self).wf(),
        ensures
            final(self).wf(),
            (final(self).ledger(), r) == apply_chargeback(
                old(self).ledger(),
                transaction,
                related_transaction_id,
            ),
    {
        if !matches!(self.store.is_disputed(&related_transaction_id), Some(true)) {
            return Err(
                OrderError::Transaction(
                    TransactionError::NonDisputedTransaction(related_transaction_id),
                ),
            );
        }
        let related = match self.store.get_transaction(&related_transaction_id) {
            Some(t) => t,
            None => {
                return Ok(transaction);
            },
        };
        if let TransactionKind::Deposit(amount) = related.kind {
            let mut account = self.account_or_new(related.client_id);
            if let Err(e) = account.chargeback(amount) {
                return Err(OrderError::Account(e));
            }
            let _ = self.store.store_account(account);
            let _ = self.store.set_disputed(related_transaction_id, false);
            proof {
                let l = old(self).ledger();
                let a = account_or_fresh(l, related.client_id);
                assert(account == with_funds(a, a.available@, a.held@ - amount@, true));
                assert(ledger_wf(self.ledger()));
            }
        }
        Ok(transaction)
    }
}

} // verus!
