//! Per-client balances and the operations that move money between them.

use vstd::prelude::*;

use crate::amount::{in_range, Amount};

verus! {

/// Identifier of a client; each client owns at most one account.
pub type ClientId = u16;

/// Why an operation on an [`Account`] was refused.
#[derive(Clone, Copy, Debug, PartialEq, Eq, Structural)]
pub enum AccountError {
    /// A withdrawal asked for more than the available funds.
    InsufficientAvailableFunds {
        /// The available funds of the account.
        available: Amount,
        /// The amount that was asked for.
        requested: Amount,
    },
    /// A resolve or a chargeback asked for more than the held funds.
    InsufficientHeldFunds {
        /// The held funds of the account.
        held: Amount,
        /// The amount that was asked for.
        requested: Amount,
    },
    /// The account is locked and refuses deposits and withdrawals.
    AccountLocked,
}

/// The funds of one client.
#[derive(Clone, Copy, Debug, PartialEq, Eq, Structural)]
pub struct Account {
    /// The client that owns the account.
    pub client_id: ClientId,
    /// Funds the client may withdraw; negative after a dispute of money that
    /// was already withdrawn.
    pub available: Amount,
    /// Funds held by open disputes.
    pub held: Amount,
    /// `available + held`.
    pub total: Amount,
    /// Set by a chargeback, and never cleared.
    pub locked: bool,
}

impl Account {
    /// The total is the sum of the available and the held funds.
    pub open spec fn wf(&self) -> bool {
        self.total@ == self.available@ + self.held@
    }

    /// Whether `other` is this account with its available and held funds set
    /// to `available` and `held`, the total set to their sum, and the client
    /// and the lock kept.
    pub open spec fn rebalanced(&self, other: Account, available: int, held: int) -> bool {
        &&& other.client_id == self.client_id
        &&& other.available@ == available
        &&& other.held@ == held
        &&& other.total@ == available + held
        &&& other.locked == self.locked
    }

    /// A new unlocked account of `client_id` with no funds.
    pub fn new(client_id: ClientId) -> (r: Account)
        ensures
            r.client_id == client_id,
            r.available@ == 0,
            r.held@ == 0,
            r.total@ == 0,
            !r.locked,
            r.wf(),
    {
        Account {
            client_id,
            available: Amount::zero(),
            held: Amount::zero(),
            total: Amount::zero(),
            locked: false,
        }
    }

    fn check_locked(&self) -> (r: Result<(), AccountError>)
        ensures
            r is Err <==> self.locked,
            r is Err ==> r == Err::<(), AccountError>(AccountError::AccountLocked),
    {
        if self.locked {
            Err(AccountError::AccountLocked)
        } else {
            Ok(())
        }
    }

    fn update_total(&mut self)
        requires
            in_range(old(self).available@ + old(self).held@),
        ensures
            final(self).total@ == old(self).available@ + old(self).held@,
            final(self).client_id == old(self).client_id,
            final(self).available == old(self).available,
            final(self).held == old(self).held,
            final(self).locked == old(self).locked,
    {
        self.total = Amount { units: self.available.units + self.held.units };
    }

    /// Adds `amount` to the available funds, unless the account is locked.
    pub fn deposit(&mut self, amount: Amount) -> (r: Result<(), AccountError>)
        requires
            old(self).wf(),
            amount@ > 0,
            !old(self).locked ==> in_range(old(self).available@ + amount@) && in_range(
                old(self).total@ + amount@,
            ),
        ensures
            final(self).wf(),
            old(self).locked ==> r == Err::<(), AccountError>(AccountError::AccountLocked)
                && *final(self) == *old(self),
            !old(self).locked ==> r is Ok && old(self).rebalanced(
                *final(self),
                old(self).available@ + amount@,
                old(self).held@,
            ),
    {
        self.check_locked()?;
        self.available = Amount { units: self.available.units + amount.units };
        self.update_total();
        Ok(())
    }

    /// Takes `amount` from the available funds. Refused, with the account
    /// unchanged, when the account is locked or holds less than `amount`
    /// available.
    pub fn withdraw(&mut self, amount: Amount) -> (r: Result<(), AccountError>)
        requires
            old(self).wf(),
            amount@ > 0,
        ensures
            final(self).wf(),
            r is Err ==> *final(self) == *old(self),
            old(self).locked ==> r == Err::<(), AccountError>(AccountError::AccountLocked),
            !old(self).locked && old(self).available@ < amount@ ==> r == Err::<(), AccountError>(
                AccountError::InsufficientAvailableFunds {
                    available: old(self).available,
                    requested: amount,
                },
            ),
            !old(self).locked && old(self).available@ >= amount@ ==> r is Ok && old(
                self,
            ).rebalanced(*final(self), old(self).available@ - amount@, old(self).held@),
    {
        self.check_locked()?;
        if self.available.units < amount.units {
            return Err(
                AccountError::InsufficientAvailableFunds {
                    available: self.available,
                    requested: amount,
                },
            );
        }
        self.available = Amount { units: self.available.units - amount.units };
        self.update_total();
        Ok(())
    }

    /// Moves `amount` from the available to the held funds, whether or not
    /// the account is locked. The available funds may become negative.
    pub fn dispute(&mut self, amount: Amount) -> (r: Result<(), AccountError>)
        requires
            old(self).wf(),
            in_range(old(self).available@ - amount@),
            in_range(old(self).held@ + amount@),
        ensures
            final(self).wf(),
            r is Ok,
            old(self).rebalanced(
                *final(self),
                old(self).available@ - amount@,
                old(self).held@ + amount@,
            ),
            final(self).total == old(self).total,
    {
        self.available = Amount { units: self.available.units - amount.units };
        self.held = Amount { units: self.held.units + amount.units };
        self.update_total();
        Ok(())
    }

    /// Moves `amount` from the held back to the available funds, whether or
    /// not the account is locked. Refused, with the account unchanged, when
    /// less than `amount` is held.
    pub fn resolve(&mut self, amount: Amount) -> (r: Result<(), AccountError>)
        requires
            old(self).wf(),
            amount@ <= old(self).held@ ==> in_range(old(self).available@ + amount@) && in_range(
                old(self).held@ - amount@,
            ),
        ensures
            final(self).wf(),
            r is Err ==> *final(self) == *old(self),
            amount@ > old(self).held@ ==> r == Err::<(), AccountError>(
                AccountError::InsufficientHeldFunds { held: old(self).held, requested: amount },
            ),
            amount@ <= old(self).held@ ==> r is Ok && old(self).rebalanced(
                *final(self),
                old(self).available@ + amount@,
                old(self).held@ - amount@,
            ) && final(self).total == old(self).total,
    {
        if amount.units > self.held.units {
            return Err(AccountError::InsufficientHeldFunds { held: self.held, requested: amount });
        }
        self.available = Amount { units: self.available.units + amount.units };
        self.held = Amount { units: self.held.units - amount.units };
        self.update_total();
        Ok(())
    }

    /// Removes `amount` from the held funds for good and locks the account,
    /// whether or not it was locked. Refused, with the account unchanged,
    /// when less than `amount` is held.
    pub fn chargeback(&mut self, amount: Amount) -> (r: Result<(), AccountError>)
        requires
            old(self).wf(),
            amount@ <= old(self).held@ ==> in_range(old(self).held@ - amount@) && in_range(
                old(self).total@ - amount@,
            ),
        ensures
            final(self).wf(),
            r is Err ==> *final(self) == *old(self),
            amount@ > old(self).held@ ==> r == Err::<(), AccountError>(
                AccountError::InsufficientHeldFunds { held: old(self).held, requested: amount },
            ),
            amount@ <= old(self).held@ ==> r is Ok && final(self).locked && final(self).client_id
                == old(self).client_id && final(self).available == old(self).available
                && final(self).held@ == old(self).held@ - amount@ && final(self).total@ == old(
                self,
            ).total@ - amount@,
    {
        if amount.units > self.held.units {
            return Err(AccountError::InsufficientHeldFunds { held: self.held, requested: amount });
        }
        self.held = Amount { units: self.held.units - amount.units };
        self.locked = true;
        self.update_total();
        Ok(())
    }
}

} // verus!
