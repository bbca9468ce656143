//! Balance changes that ignore what does not apply instead of reporting it.
use crate::engine::types::{Account, Amount};
use vstd::prelude::*;

verus! {

/// Balance changes that do nothing on a locked account.
pub trait AccountOps: Sized {
    /// The balances that the changes act on.
    spec fn balances(&self) -> Account;

    /// Adds `amount` to what is available and to the total, unless locked.
    fn apply_deposit(&mut self, amount: Amount)
        requires
            old(self).balances().locked || old(self).balances().deposit_fits(amount),
        ensures
            final(self).balances() == if old(self).balances().locked {
                old(self).balances()
            } else {
                old(self).balances().deposited(amount)
            },
    ;

    /// Takes `amount` from what is available and from the total, unless locked or
    /// less is available; says whether it did.
    fn try_apply_withdrawal(&mut self, amount: Amount) -> (r: bool)
        requires
            old(self).balances().locked || amount.0 > old(self).balances().available.0 || old(
                self,
            ).balances().withdrawal_fits(amount),
        ensures
            r == (!old(self).balances().locked && amount.0 <= old(self).balances().available.0),
            final(self).balances() == if r {
                old(self).balances().withdrawn(amount)
            } else {
                old(self).balances()
            },
    ;

    /// Moves `disputed_amount` from what is available to what is held, unless locked.
    fn apply_dispute(&mut self, disputed_amount: Amount)
        requires
            old(self).balances().locked || old(self).balances().dispute_fits(disputed_amount),
        ensures
            final(self).balances() == if old(self).balances().locked {
                old(self).balances()
            } else {
                old(self).balances().disputed(disputed_amount)
            },
    ;

    /// Moves `disputed_amount` from what is held back to what is available, unless
    /// locked.
    fn apply_resolve(&mut self, disputed_amount: Amount)
        requires
            old(self).balances().locked || old(self).balances().resolve_fits(disputed_amount),
        ensures
            final(self).balances() == if old(self).balances().locked {
                old(self).balances()
            } else {
                old(self).balances().resolved(disputed_amount)
            },
    ;

    /// Removes `disputed_amount` from what is held and from the total and locks,
    /// unless locked already.
    fn apply_chargeback(&mut self, disputed_amount: Amount)
        requires
            old(self).balances().locked || old(self).balances().chargeback_fits(disputed_amount),
        ensures
            final(self).balances() == if old(self).balances().locked {
                old(self).balances()
            } else {
                old(self).balances().charged_back(disputed_amount)
            },
    ;
}

impl AccountOps for Account {
    open spec fn balances(&self) -> Account {
        *self
    }

    fn apply_deposit(&mut self, amount: Amount) {
        if self.locked {
            return;
        }
        self.available.add_assign(amount);
        self.total.add_assign(amount);
    }

    fn try_apply_withdrawal(&mut self, amount: Amount) -> (r: bool) {
        if self.locked {
            return false;
        }
        if amount.0 > self.available.0 {
            return false;
        }
        self.available.sub_assign(amount);
        self.total.sub_assign(amount);
        true
    }

    fn apply_dispute(&mut self, disputed_amount: Amount) {
        if self.locked {
            return;
        }
        self.available.sub_assign(disputed_amount);
        self.held.add_assign(disputed_amount);
    }

    fn apply_resolve(&mut self, disputed_amount: Amount) {
        if self.locked {
            return;
        }
        self.held.sub_assign(disputed_amount);
        self.available.add_assign(disputed_amount);
    }

    fn apply_chargeback(&mut self, disputed_amount: Amount) {
        if self.locked {
            return;
        }
        self.held.sub_assign(disputed_amount);
        self.total.sub_assign(disputed_amount);
        self.locked = true;
    }
}

} // verus!
