//! Transaction orders as they arrive, and the transactions that a ledger
//! accepted from them.

use vstd::prelude::*;

use crate::account::ClientId;
use crate::amount::Amount;

verus! {

/// Identifier of a transaction, unique across all clients.
pub type TxId = u32;

/// What a transaction does.
#[derive(Clone, Copy, Debug, PartialEq, Eq, Structural)]
pub enum TransactionKind {
    /// Deposit the given amount.
    Deposit(Amount),
    /// Withdraw the given amount.
    Withdrawal(Amount),
    /// Dispute the deposit with the given identifier.
    Dispute(TxId),
    /// Resolve the dispute of the deposit with the given identifier.
    Resolve(TxId),
    /// Charge back the disputed deposit with the given identifier.
    ChargeBack(TxId),
}

/// Why a transaction kind could not be made.
#[derive(Clone, Debug, PartialEq, Eq)]
pub enum TransactionKindError {
    /// Deposits and withdrawals move a strictly positive amount.
    NegativeOrZeroAmount(Amount),
    /// The name of the kind is none of the five known ones.
    UnknownKind(String),
    /// A deposit or a withdrawal came without an amount.
    MissingAmount,
}

impl TransactionKind {
    /// Deposits and withdrawals carry a strictly positive amount.
    pub open spec fn wf(&self) -> bool {
        match *self {
            TransactionKind::Deposit(a) => a@ > 0,
            TransactionKind::Withdrawal(a) => a@ > 0,
            _ => true,
        }
    }

    /// A deposit of `amount`, which must be strictly positive.
    pub fn deposit(amount: Amount) -> (r: Result<TransactionKind, TransactionKindError>)
        ensures
            amount@ > 0 ==> r == Ok::<TransactionKind, TransactionKindError>(
                TransactionKind::Deposit(amount),
            ),
            amount@ <= 0 ==> r == Err::<TransactionKind, TransactionKindError>(
                TransactionKindError::NegativeOrZeroAmount(amount),
            ),
    {
        Ok(TransactionKind::Deposit(Self::check_positive_amount(amount)?))
    }

    /// A withdrawal of `amount`, which must be strictly positive.
    pub fn withdrawal(amount: Amount) -> (r: Result<TransactionKind, TransactionKindError>)
        ensures
            amount@ > 0 ==> r == Ok::<TransactionKind, TransactionKindError>(
                TransactionKind::Withdrawal(amount),
            ),
            amount@ <= 0 ==> r == Err::<TransactionKind, TransactionKindError>(
                TransactionKindError::NegativeOrZeroAmount(amount),
            ),
    {
        Ok(TransactionKind::Withdrawal(Self::check_positive_amount(amount)?))
    }

    /// A dispute of the deposit `tx_id`.
    pub fn dispute(tx_id: TxId) -> (r: TransactionKind)
        ensures
            r == TransactionKind::Dispute(tx_id),
    {
        TransactionKind::Dispute(tx_id)
    }

    fn check_positive_amount(amount: Amount) -> (r: Result<Amount, TransactionKindError>)
        ensures
            amount@ > 0 ==> r == Ok::<Amount, TransactionKindError>(amount),
            amount@ <= 0 ==> r == Err::<Amount, TransactionKindError>(
                TransactionKindError::NegativeOrZeroAmount(amount),
            ),
    {
        if amount.units <= 0 {
            return Err(TransactionKindError::NegativeOrZeroAmount(amount));
        }
        Ok(amount)
    }

    /// A resolve of the dispute of the deposit `tx_id`.
    pub fn resolve(tx_id: TxId) -> (r: TransactionKind)
        ensures
            r == TransactionKind::Resolve(tx_id),
    {
        TransactionKind::Resolve(tx_id)
    }

    /// A chargeback of the disputed deposit `tx_id`.
    pub fn chargeback(tx_id: TxId) -> (r: TransactionKind)
        ensures
            r == TransactionKind::ChargeBack(tx_id),
    {
        TransactionKind::ChargeBack(tx_id)
    }
}

/// A transaction that a ledger accepted. It is never changed or deleted.
#[derive(Clone, Copy, Debug, PartialEq, Eq, Structural)]
pub struct Transaction {
    /// The identifier of the transaction.
    pub tx_id: TxId,
    /// The client that made the transaction.
    pub client_id: ClientId,
    /// What the transaction does.
    pub kind: TransactionKind,
}

/// A transaction that a client asked for and that has not yet been checked
/// against the ledger.
#[derive(Clone, Copy, Debug, PartialEq, Eq, Structural)]
pub struct TransactionOrder {
    /// The identifier of the transaction.
    pub tx_id: TxId,
    /// The client that made the order.
    pub client_id: ClientId,
    /// What the order asks for.
    pub kind: TransactionKind,
}

/// The transaction with the fields of `order`.
pub open spec fn transaction_of(order: TransactionOrder) -> Transaction {
    Transaction { tx_id: order.tx_id, client_id: order.client_id, kind: order.kind }
}

impl From<TransactionOrder> for Transaction {
    fn from(order: TransactionOrder) -> (r: Transaction)
        ensures
            r == transaction_of(order),
    {
        Transaction { tx_id: order.tx_id, client_id: order.client_id, kind: order.kind }
    }
}

impl vstd::std_specs::convert::FromSpecImpl<TransactionOrder> for Transaction {
    open spec fn obeys_from_spec() -> bool {
        true
    }

    open spec fn from_spec(order: TransactionOrder) -> Transaction {
        transaction_of(order)
    }
}

/// The lower-case form of `s`, as `str::to_lowercase` gives it.
pub uninterp spec fn lower_of(s: Seq<char>) -> Seq<char>;

/// Relies on `str::to_lowercase`: the result depends on the characters of
/// `s` alone.
#[verifier::external_body]
fn lowercase(s: &str) -> (r: String)
    ensures
        r@ == lower_of(s@),
{
    s.to_lowercase()
}

/// Whether `r` is what a record gives whose kind is named `kind`, in lower
/// case, and whose other fields are `client_id`, `tx_id` and `amount`:
/// deposits and withdrawals need a strictly positive amount, the three other
/// kinds ignore it and refer to the transaction `tx_id`.
pub open spec fn parses_to(
    kind: Seq<char>,
    client_id: ClientId,
    tx_id: TxId,
    amount: Option<Amount>,
    r: Result<TransactionOrder, TransactionKindError>,
) -> bool {
    if kind == "deposit"@ || kind == "withdrawal"@ {
        match amount {
            None => r == Err::<TransactionOrder, TransactionKindError>(
                TransactionKindError::MissingAmount,
            ),
            Some(a) => if a@ <= 0 {
                r == Err::<TransactionOrder, TransactionKindError>(
                    TransactionKindError::NegativeOrZeroAmount(a),
                )
            } else {
                r == Ok::<TransactionOrder, TransactionKindError>(
                    TransactionOrder {
                        tx_id,
                        client_id,
                        kind: if kind == "deposit"@ {
                            TransactionKind::Deposit(a)
                        } else {
                            TransactionKind::Withdrawal(a)
                        },
                    },
                )
            },
        }
    } else if kind == "dispute"@ {
        r == Ok::<TransactionOrder, TransactionKindError>(
            TransactionOrder { tx_id, client_id, kind: TransactionKind::Dispute(tx_id) },
        )
    } else if kind == "resolve"@ {
        r == Ok::<TransactionOrder, TransactionKindError>(
            TransactionOrder { tx_id, client_id, kind: TransactionKind::Resolve(tx_id) },
        )
    } else if kind == "chargeback"@ {
        r == Ok::<TransactionOrder, TransactionKindError>(
            TransactionOrder { tx_id, client_id, kind: TransactionKind::ChargeBack(tx_id) },
        )
    } else {
        r matches Err(TransactionKindError::UnknownKind(name)) && name@ == kind
    }
}

impl TransactionOrder {
    /// The order that a record describes whose kind is named `kind`, already
    /// in lower case.
    pub fn from_lowercase_record(
        kind: &str,
        client_id: ClientId,
        tx_id: TxId,
        amount: Option<Amount>,
    ) -> (r: Result<TransactionOrder, TransactionKindError>)
        ensures
            parses_to(kind@, client_id, tx_id, amount, r),
            r matches Ok(order) ==> order.kind.wf(),
    {
        let name = kind.to_owned();
        let is_deposit = name == "deposit".to_owned();
        let is_withdrawal = name == "withdrawal".to_owned();
        let kind = if is_deposit || is_withdrawal {
            match amount {
                None => {
                    return Err(TransactionKindError::MissingAmount);
                },
                Some(a) => if is_deposit {
                    TransactionKind::deposit(a)?
                } else {
                    TransactionKind::withdrawal(a)?
                },
            }
        } else if name == "dispute".to_owned() {
            TransactionKind::dispute(tx_id)
        } else if name == "resolve".to_owned() {
            TransactionKind::resolve(tx_id)
        } else if name == "chargeback".to_owned() {
            TransactionKind::chargeback(tx_id)
        } else {
            return Err(TransactionKindError::UnknownKind(name));
        };
        Ok(TransactionOrder { tx_id, client_id, kind })
    }

    /// The order that a record describes whose kind is named `kind`, in any
    /// case: `Deposit`, `dEpOsIt` and `deposit` name the same kind.
    pub fn from_record(
        kind: &str,
        client_id: ClientId,
        tx_id: TxId,
        amount: Option<Amount>,
    ) -> (r: Result<TransactionOrder, TransactionKindError>)
        ensures
            parses_to(lower_of(kind@), client_id, tx_id, amount, r),
            r matches Ok(order) ==> order.kind.wf(),
    {
        let lowered = lowercase(kind);
        TransactionOrder::from_lowercase_record(lowered.as_str(), client_id, tx_id, amount)
    }
}

} // verus!
