//! Balance changes of one account.
use crate::engine::types::{fits_i64, Account, Amount};
use vstd::prelude::*;

verus! {

/// Why an account refused a balance change.
#[derive(Debug, Clone, Copy, PartialEq, Eq, Structural)]
pub enum AccountError {
    AccountLocked,
    InsufficientAvailableFunds { requested: Amount, available: Amount },
    InsufficientHeldFunds { requested: Amount, held: Amount },
}

impl Account {
    /// `amount` added to what is available and to the total.
    pub open spec fn deposited(self, amount: Amount) -> Account {
        Account {
            available: Amount((self.available.0 + amount.0) as i64),
            total: Amount((self.total.0 + amount.0) as i64),
            ..self
        }
    }

    /// `amount` taken from what is available and from the total.
    pub open spec fn withdrawn(self, amount: Amount) -> Account {
        Account {
            available: Amount((self.available.0 - amount.0) as i64),
            total: Amount((self.total.0 - amount.0) as i64),
            ..self
        }
    }

    /// `amount` moved from what is available to what is held.
    pub open spec fn disputed(self, amount: Amount) -> Account {
        Account {
            available: Amount((self.available.0 - amount.0) as i64),
            held: Amount((self.held.0 + amount.0) as i64),
            ..self
        }
    }

    /// `amount` moved from what is held back to what is available.
    pub open spec fn resolved(self, amount: Amount) -> Account {
        Account {
            held: Amount((self.held.0 - amount.0) as i64),
            available: Amount((self.available.0 + amount.0) as i64),
            ..self
        }
    }

    /// `amount` removed from what is held and from the total, and the account locked.
    pub open spec fn charged_back(self, amount: Amount) -> Account {
        Account {
            held: Amount((self.held.0 - amount.0) as i64),
            total: Amount((self.total.0 - amount.0) as i64),
            locked: true,
            ..self
        }
    }

    pub open spec fn deposit_fits(self, amount: Amount) -> bool {
        fits_i64(self.available.0 + amount.0) && fits_i64(self.total.0 + amount.0)
    }

    pub open spec fn withdrawal_fits(self, amount: Amount) -> bool {
        fits_i64(self.available.0 - amount.0) && fits_i64(self.total.0 - amount.0)
    }

    pub open spec fn dispute_fits(self, amount: Amount) -> bool {
        fits_i64(self.available.0 - amount.0) && fits_i64(self.held.0 + amount.0)
    }

    pub open spec fn resolve_fits(self, amount: Amount) -> bool {
        fits_i64(self.held.0 - amount.0) && fits_i64(self.available.0 + amount.0)
    }

    pub open spec fn chargeback_fits(self, amount: Amount) -> bool {
        fits_i64(self.held.0 - amount.0) && fits_i64(self.total.0 - amount.0)
    }

    /// Adds `amount` to what is available and to the total, unless the account
    /// is locked.
    pub fn apply_deposit(&mut self, amount: Amount) -> (r: Result<(), AccountError>)
        requires
            old(self).locked || old(self).deposit_fits(amount),
        ensures
            old(self).locked ==> r == Err::<(), AccountError>(AccountError::AccountLocked)
                && *final(self) == *old(self),
            !old(self).locked ==> r == Ok::<(), AccountError>(()) && *final(self) == old(
                self,
            ).deposited(amount),
    {
        if self.locked {
            return Err(AccountError::AccountLocked);
        }
        self.available.add_assign(amount);
        self.total.add_assign(amount);
        Ok(())
    }

    /// Takes `amount` from what is available and from the total, unless the
    /// account is locked or less than `amount` is available.
    pub fn try_apply_withdrawal(&mut self, amount: Amount) -> (r: Result<(), AccountError>)
        requires
            old(self).locked || amount.0 > old(self).available.0 || old(self).withdrawal_fits(
                amount,
            ),
        ensures
            old(self).locked ==> r == Err::<(), AccountError>(AccountError::AccountLocked)
                && *final(self) == *old(self),
            !old(self).locked && amount.0 > old(self).available.0 ==> r == Err::<
                (),
                AccountError,
            >(
                AccountError::InsufficientAvailableFunds {
                    requested: amount,
                    available: old(self).available,
                },
            ) && *final(self) == *old(self),
            !old(self).locked && amount.0 <= old(self).available.0 ==> r == Ok::<(), AccountError>(
                (),
            ) && *final(self) == old(self).withdrawn(amount),
    {
        if self.locked {
            return Err(AccountError::AccountLocked);
        }
        if amount.0 > self.available.0 {
            return Err(
                AccountError::InsufficientAvailableFunds { requested: amount, available: self.available },
            );
        }
        self.available.sub_assign(amount);
        self.total.sub_assign(amount);
        Ok(())
    }

    /// Moves `disputed_amount` from what is available to what is held, unless the
    /// account is locked.
    pub fn apply_dispute(&mut self, disputed_amount: Amount) -> (r: Result<(), AccountError>)
        requires
            old(self).locked || old(self).dispute_fits(disputed_amount),
        ensures
            old(self).locked ==> r == Err::<(), AccountError>(AccountError::AccountLocked)
                && *final(self) == *old(self),
            !old(self).locked ==> r == Ok::<(), AccountError>(()) && *final(self) == old(
                self,
            ).disputed(disputed_amount),
    {
        if self.locked {
            return Err(AccountError::AccountLocked);
        }
        self.available.sub_assign(disputed_amount);
        self.held.add_assign(disputed_amount);
        Ok(())
    }

    /// Moves `disputed_amount` from what is held back to what is available, unless
    /// the account is locked or less than that is held.
    pub fn apply_resolve(&mut self, disputed_amount: Amount) -> (r: Result<(), AccountError>)
        requires
            old(self).locked || disputed_amount.0 > old(self).held.0 || old(self).resolve_fits(
                disputed_amount,
            ),
        ensures
            old(self).locked ==> r == Err::<(), AccountError>(AccountError::AccountLocked)
                && *final(self) == *old(self),
            !old(self).locked && disputed_amount.0 > old(self).held.0 ==> r == Err::<
                (),
                AccountError,
            >(
                AccountError::InsufficientHeldFunds {
                    requested: disputed_amount,
                    held: old(self).held,
                },
            ) && *final(self) == *old(self),
            !old(self).locked && disputed_amount.0 <= old(self).held.0 ==> r == Ok::<
                (),
                AccountError,
            >(()) && *final(self) == old(self).resolved(disputed_amount),
    {
        if self.locked {
            return Err(AccountError::AccountLocked);
        }
        if disputed_amount.0 > self.held.0 {
            return Err(
                AccountError::InsufficientHeldFunds { requested: disputed_amount, held: self.held },
            );
        }
        self.held.sub_assign(disputed_amount);
        self.available.add_assign(disputed_amount);
        Ok(())
    }

    /// Removes `disputed_amount` from what is held and from the total and locks
    /// the account, unless it is locked already or less than that is held.
    pub fn apply_chargeback(&mut self, disputed_amount: Amount) -> (r: Result<(), AccountError>)
        requires
            old(self).locked || disputed_amount.0 > old(self).held.0 || old(self).chargeback_fits(
                disputed_amount,
            ),
        ensures
            old(self).locked ==> r == Err::<(), AccountError>(AccountError::AccountLocked)
                && *final(self) == *old(self),
            !old(self).locked && disputed_amount.0 > old(self).held.0 ==> r == Err::<
                (),
                AccountError,
            >(
                AccountError::InsufficientHeldFunds {
                    requested: disputed_amount,
                    held: old(self).held,
                },
            ) && *final(self) == *old(self),
            !old(self).locked && disputed_amount.0 <= old(self).held.0 ==> r == Ok::<
                (),
                AccountError,
            >(()) && *final(self) == old(self).charged_back(disputed_amount),
    {
        if self.locked {
            return Err(AccountError::AccountLocked);
        }
        if disputed_amount.0 > self.held.0 {
            return Err(
                AccountError::InsufficientHeldFunds { requested: disputed_amount, held: self.held },
            );
        }
        self.held.sub_assign(disputed_amount);
        self.total.sub_assign(disputed_amount);
        self.locked = true;
        Ok(())
    }
}

/// Every balance change that stays in range keeps the total equal to what is
/// available plus what is held.
pub proof fn lemma_changes_keep_balance(a: Account, amount: Amount)
    requires
        a.is_balanced(),
    ensures
        a.deposit_fits(amount) ==> a.deposited(amount).is_balanced(),
        a.withdrawal_fits(amount) ==> a.withdrawn(amount).is_balanced(),
        a.dispute_fits(amount) ==> a.disputed(amount).is_balanced(),
        a.resolve_fits(amount) ==> a.resolved(amount).is_balanced(),
        a.chargeback_fits(amount) ==> a.charged_back(amount).is_balanced(),
{
}

/// A dispute followed by a resolve of the same amount leaves the balances as they
/// were, and where nothing negative was held the resolve is not refused.
pub proof fn lemma_resolve_undoes_dispute(a: Account, amount: Amount)
    requires
        a.dispute_fits(amount),
    ensures
        a.disputed(amount).resolve_fits(amount),
        a.disputed(amount).resolved(amount) == a,
        a.held.0 >= 0 ==> amount.0 <= a.disputed(amount).held.0,
{
}

/// A deposit followed by a withdrawal of the same amount leaves the balances as
/// they were, and where nothing negative was available the withdrawal is not
/// refused.
pub proof fn lemma_withdrawal_undoes_deposit(a: Account, amount: Amount)
    requires
        a.deposit_fits(amount),
    ensures
        a.deposited(amount).withdrawal_fits(amount),
        a.deposited(amount).withdrawn(amount) == a,
        a.available.0 >= 0 ==> amount.0 <= a.deposited(amount).available.0,
{
}

/// A chargeback locks the account.
pub proof fn lemma_chargeback_locks(a: Account, amount: Amount)
    ensures
        a.charged_back(amount).locked,
{
}

} // verus!
