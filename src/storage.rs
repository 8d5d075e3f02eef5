//! Where a ledger keeps its accounts, its transactions and which of them are
//! disputed.

use std::collections::{HashMap, HashSet};

use vstd::prelude::*;
use vstd::string::StringExecFns;

use crate::account::{Account, ClientId};
use crate::transaction::{Transaction, TxId};

verus! {

broadcast use vstd::std_specs::hash::group_hash_axioms;

/// Why a storage refused to change its content.
#[derive(Clone, Copy, Debug, PartialEq, Eq, Structural)]
pub enum StorageError {
    /// A transaction with this identifier is already stored.
    TransactionAlreadyExists(TxId),
    /// No transaction with this identifier is stored.
    TransactionNotFound(TxId),
}

/// The decimal digit `d`.
pub open spec fn digit_char(d: nat) -> char {
    if d == 0 {
        '0'
    } else if d == 1 {
        '1'
    } else if d == 2 {
        '2'
    } else if d == 3 {
        '3'
    } else if d == 4 {
        '4'
    } else if d == 5 {
        '5'
    } else if d == 6 {
        '6'
    } else if d == 7 {
        '7'
    } else if d == 8 {
        '8'
    } else {
        '9'
    }
}

/// The decimal form of `n`, without leading zeros.
pub open spec fn decimal(n: nat) -> Seq<char>
    decreases n,
{
    if n < 10 {
        seq![digit_char(n)]
    } else {
        decimal(n / 10) + seq![digit_char(n % 10)]
    }
}

fn digit_str(d: u32) -> (r: &'static str)
    requires
        d < 10,
    ensures
        r@ == seq![digit_char(d as nat)],
{
    proof {
        reveal_strlit("0");
        reveal_strlit("1");
        reveal_strlit("2");
        reveal_strlit("3");
        reveal_strlit("4");
        reveal_strlit("5");
        reveal_strlit("6");
        reveal_strlit("7");
        reveal_strlit("8");
        reveal_strlit("9");
    }
    match d {
        0 => "0",
        1 => "1",
        2 => "2",
        3 => "3",
        4 => "4",
        5 => "5",
        6 => "6",
        7 => "7",
        8 => "8",
        _ => "9",
    }
}

fn append_decimal(s: &mut String, n: u32)
    ensures
        final(s)@ == old(s)@ + decimal(n as nat),
    decreases n,
{
    if n >= 10 {
        append_decimal(s, n / 10);
    }
    s.append(digit_str(n % 10));
    assert(final(s)@ == old(s)@ + decimal(n as nat));
}

impl StorageError {
    /// A sentence that says what went wrong.
    pub fn message(&self) -> (r: String)
        ensures
            self matches StorageError::TransactionAlreadyExists(id) ==> r@ == "Transaction "@
                + decimal(id as nat) + " already exists"@,
            self matches StorageError::TransactionNotFound(id) ==> r@ == "Transaction "@
                + decimal(id as nat) + " does not exist"@,
    {
        let mut text = String::from_str("Transaction ");
        match self {
            StorageError::TransactionAlreadyExists(id) => {
                append_decimal(&mut text, *id);
                text.append(" already exists");
            },
            StorageError::TransactionNotFound(id) => {
                append_decimal(&mut text, *id);
                text.append(" does not exist");
            },
        }
        text
    }
}

/// Whether `list` holds each account of `accounts` exactly once, and nothing
/// else.
pub open spec fn lists_accounts(list: Seq<Account>, accounts: Map<ClientId, Account>) -> bool {
    &&& forall|i: int|
        0 <= i < list.len() ==> #[trigger] accounts.contains_key(list[i].client_id)
            && accounts[list[i].client_id] == list[i]
    &&& forall|c: ClientId|
        #[trigger] accounts.contains_key(c) ==> exists|i: int|
            0 <= i < list.len() && #[trigger] list[i].client_id == c
    &&& forall|i: int, j: int|
        0 <= i < j < list.len() ==> #[trigger] list[i].client_id != #[trigger] list[j].client_id
}

/// The operations that a ledger needs from its storage. A storage fails only
/// where the change it is asked for would break its consistency.
pub trait AccountStorage {
    /// The stored accounts, by client.
    spec fn accounts(&self) -> Map<ClientId, Account>;

    /// The stored transactions, by identifier.
    spec fn transactions(&self) -> Map<TxId, Transaction>;

    /// The identifiers of the transactions under dispute.
    spec fn disputed(&self) -> Set<TxId>;

    /// The storage's own consistency.
    spec fn wf(&self) -> bool;

    /// The account of `client_id`, if one is stored.
    fn get_account(&self, client_id: &ClientId) -> (r: Option<Account>)
        requires
            self.wf(),
        ensures
            r == (if self.accounts().contains_key(*client_id) {
                Some(self.accounts()[*client_id])
            } else {
                None
            }),
    ;

    /// Every stored account once.
    fn get_accounts(&self) -> (r: Vec<Account>)
        requires
            self.wf(),
        ensures
            lists_accounts(r@, self.accounts()),
    ;

    /// The transaction `tx_id`, if one is stored.
    fn get_transaction(&self, tx_id: &TxId) -> (r: Option<Transaction>)
        requires
            self.wf(),
        ensures
            r == (if self.transactions().contains_key(*tx_id) {
                Some(self.transactions()[*tx_id])
            } else {
                None
            }),
    ;

    /// Whether the transaction `tx_id` is disputed, or `None` where no such
    /// transaction is stored.
    fn is_disputed(&self, tx_id: &TxId) -> (r: Option<bool>)
        requires
            self.wf(),
        ensures
            r == (if self.transactions().contains_key(*tx_id) {
                Some(self.disputed().contains(*tx_id))
            } else {
                None
            }),
    ;

    /// Adds `account`, or replaces the one stored for its client.
    fn store_account(&mut self, account: Account) -> (r: Result<Account, StorageError>)
        requires
            old(self).wf(),
        ensures
            final(self).wf(),
            r == Ok::<Account, StorageError>(account),
            final(self).accounts() == old(self).accounts().insert(account.client_id, account),
            final(self).transactions() == old(self).transactions(),
            final(self).disputed() == old(self).disputed(),
    ;

    /// Adds `transaction`; fails, with nothing changed, where a transaction
    /// with its identifier is already stored.
    fn store_transaction(&mut self, transaction: Transaction) -> (r: Result<
        Transaction,
        StorageError,
    >)
        requires
            old(self).wf(),
        ensures
            final(self).wf(),
            final(self).accounts() == old(self).accounts(),
            final(self).disputed() == old(self).disputed(),
            old(self).transactions().contains_key(transaction.tx_id) ==> r == Err::<
                Transaction,
                StorageError,
            >(StorageError::TransactionAlreadyExists(transaction.tx_id))
                && final(self).transactions() == old(self).transactions(),
            !old(self).transactions().contains_key(transaction.tx_id) ==> r == Ok::<
                Transaction,
                StorageError,
            >(transaction) && final(self).transactions() == old(self).transactions().insert(
                transaction.tx_id,
                transaction,
            ),
    ;

    /// Marks the transaction `tx_id` as disputed or not; fails, with nothing
    /// changed, where no such transaction is stored.
    fn set_disputed(&mut self, tx_id: TxId, disputed: bool) -> (r: Result<(), StorageError>)
        requires
            old(self).wf(),
        ensures
            final(self).wf(),
            final(self).accounts() == old(self).accounts(),
            final(self).transactions() == old(self).transactions(),
            !old(self).transactions().contains_key(tx_id) ==> r == Err::<(), StorageError>(
                StorageError::TransactionNotFound(tx_id),
            ) && final(self).disputed() == old(self).disputed(),
            old(self).transactions().contains_key(tx_id) ==> r == Ok::<(), StorageError>(())
                && final(self).disputed() == (if disputed {
                old(self).disputed().insert(tx_id)
            } else {
                old(self).disputed().remove(tx_id)
            }),
    ;
}

/// A storage in memory. Accounts are listed in the order in which their
/// clients were first stored.
pub struct InMemoryAccountStorage {
    accounts: HashMap<ClientId, Account>,
    clients: Vec<ClientId>,
    transactions: HashMap<TxId, Transaction>,
    disputed: HashSet<TxId>,
}

impl InMemoryAccountStorage {
    /// An empty storage.
    pub fn new() -> (r: InMemoryAccountStorage)
        ensures
            r.wf(),
            r.accounts() == Map::<ClientId, Account>::empty(),
            r.transactions() == Map::<TxId, Transaction>::empty(),
            r.disputed() == Set::<TxId>::empty(),
    {
        InMemoryAccountStorage {
            accounts: HashMap::new(),
            clients: Vec::new(),
            transactions: HashMap::new(),
            disputed: HashSet::new(),
        }
    }
}

impl Default for InMemoryAccountStorage {
    fn default() -> (r: InMemoryAccountStorage)
        ensures
            r.wf(),
            r.accounts() == Map::<ClientId, Account>::empty(),
            r.transactions() == Map::<TxId, Transaction>::empty(),
            r.disputed() == Set::<TxId>::empty(),
    {
        InMemoryAccountStorage::new()
    }
}

impl AccountStorage for InMemoryAccountStorage {
    closed spec fn accounts(&self) -> Map<ClientId, Account> {
        self.accounts@
    }

    closed spec fn transactions(&self) -> Map<TxId, Transaction> {
        self.transactions@
    }

    closed spec fn disputed(&self) -> Set<TxId> {
        self.disputed@
    }

    /// The client list names each stored account once, and each account is
    /// stored under its own client.
    closed spec fn wf(&self) -> bool {
        &&& forall|i: int|
            0 <= i < self.clients@.len() ==> #[trigger] self.accounts@.contains_key(
                self.clients@[i],
            )
        &&& forall|c: ClientId|
            #[trigger] self.accounts@.contains_key(c) ==> exists|i: int|
                0 <= i < self.clients@.len() && #[trigger] self.clients@[i] == c
        &&& forall|i: int, j: int|
            0 <= i < j < self.clients@.len() ==> #[trigger] self.clients@[i]
                != #[trigger] self.clients@[j]
        &&& forall|c: ClientId| #[trigger]
            self.accounts@.contains_key(c) ==> self.accounts@[c].client_id == c
    }

    fn get_account(&self, client_id: &ClientId) -> (r: Option<Account>) {
        match self.accounts.get(client_id) {
            Some(account) => Some(*account),
            None => None,
        }
    }

    fn get_accounts(&self) -> (r: Vec<Account>) {
        let mut list: Vec<Account> = Vec::new();
        let mut i: usize = 0;
        while i < self.clients.len()
            invariant
                self.wf(),
                i <= self.clients@.len(),
                list@.len() == i,
                forall|j: int|
                    0 <= j < i ==> #[trigger] list@[j] == self.accounts@[self.clients@[j]],
            decreases self.clients@.len() - i,
        {
            let client_id = self.clients[i];
            assert(self.accounts@.contains_key(self.clients@[i as int]));
            match self.accounts.get(&client_id) {
                Some(account) => list.push(*account),
                None => {},
            }
            i = i + 1;
        }
        assert forall|j: int| 0 <= j < list@.len() implies list@[j].client_id == self.clients@[j] by {
            assert(self.accounts@.contains_key(self.clients@[j]));
        }
        assert forall|c: ClientId| #[trigger] self.accounts@.contains_key(c) implies exists|i: int|
            0 <= i < list@.len() && #[trigger] list@[i].client_id == c by {
            let i = choose|i: int| 0 <= i < self.clients@.len() && #[trigger] self.clients@[i] == c;
            assert(list@[i].client_id == c);
        }
        assert forall|i: int, j: int| 0 <= i < j < list@.len() implies #[trigger] list@[i].client_id
            != #[trigger] list@[j].client_id by {
            assert(list@[i].client_id == self.clients@[i]);
            assert(list@[j].client_id == self.clients@[j]);
        }
        list
    }

    fn get_transaction(&self, tx_id: &TxId) -> (r: Option<Transaction>) {
        match self.transactions.get(tx_id) {
            Some(transaction) => Some(*transaction),
            None => None,
        }
    }

    fn is_disputed(&self, tx_id: &TxId) -> (r: Option<bool>) {
        if self.transactions.contains_key(tx_id) {
            Some(self.disputed.contains(tx_id))
        } else {
            None
        }
    }

    fn store_account(&mut self, account: Account) -> (r: Result<Account, StorageError>) {
        let client_id = account.client_id;
        if !self.accounts.contains_key(&client_id) {
            self.clients.push(client_id);
        }
        self.accounts.insert(client_id, account);
        proof {
            assert forall|c: ClientId| #[trigger] self.accounts@.contains_key(c) implies exists|
                i: int,
            | 0 <= i < self.clients@.len() && #[trigger] self.clients@[i] == c by {
                if c == client_id {
                    if !old(self).accounts@.contains_key(c) {
                        assert(self.clients@[self.clients@.len() - 1] == c);
                    } else {
                        let i = choose|i: int|
                            0 <= i < old(self).clients@.len() && #[trigger] old(self).clients@[i]
                                == c;
                        assert(self.clients@[i] == c);
                    }
                } else {
                    let i = choose|i: int|
                        0 <= i < old(self).clients@.len() && #[trigger] old(self).clients@[i] == c;
                    assert(self.clients@[i] == c);
                }
            }
        }
        Ok(account)
    }

    fn store_transaction(&mut self, transaction: Transaction) -> (r: Result<
        Transaction,
        StorageError,
    >) {
        if self.transactions.contains_key(&transaction.tx_id) {
            return Err(StorageError::TransactionAlreadyExists(transaction.tx_id));
        }
        self.transactions.insert(transaction.tx_id, transaction);
        assert(self.accounts@ == old(self).accounts@ && self.clients@ == old(self).clients@);
        Ok(transaction)
    }

    fn set_disputed(&mut self, tx_id: TxId, disputed: bool) -> (r: Result<(), StorageError>) {
        if !self.transactions.contains_key(&tx_id) {
            return Err(StorageError::TransactionNotFound(tx_id));
        }
        if disputed {
            self.disputed.insert(tx_id);
        } else {
            self.disputed.remove(&tx_id);
        }
        assert(self.accounts@ == old(self).accounts@ && self.clients@ == old(self).clients@);
        Ok(())
    }
}

} // verus!
