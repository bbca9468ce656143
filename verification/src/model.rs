//! A transaction record as read straight from an input row, with its amount as
//! a decimal.
use crate::decimal::Decimal;
use vstd::prelude::*;

verus! {

#[derive(Debug, Clone, Copy)]
pub struct BaseTransaction {
    pub client: u16,
    pub tx: u32,
}

/// A decimal amount.
#[derive(Debug, Clone, Copy)]
pub struct Amount(pub Decimal);

#[derive(Debug, Clone, Copy)]
pub enum Transaction {
    Deposit { base: BaseTransaction, amount: Amount },
    Withdrawal { base: BaseTransaction, amount: Amount },
    Dispute { base: BaseTransaction },
    Resolve { base: BaseTransaction },
    Chargeback { base: BaseTransaction },
}

impl Transaction {
    pub open spec fn base_of(self) -> BaseTransaction {
        match self {
            Transaction::Deposit { base, .. } => base,
            Transaction::Withdrawal { base, .. } => base,
            Transaction::Dispute { base } => base,
            Transaction::Resolve { base } => base,
            Transaction::Chargeback { base } => base,
        }
    }

    pub fn client_id(&self) -> (c: u16)
        ensures
            c == self.base_of().client,
    {
        match self {
            Transaction::Deposit { base, .. }
            | Transaction::Withdrawal { base, .. }
            | Transaction::Dispute { base, .. }
            | Transaction::Resolve { base, .. }
            | Transaction::Chargeback { base, .. } => base.client,
        }
    }

    pub fn tx_id(&self) -> (t: u32)
        ensures
            t == self.base_of().tx,
    {
        match self {
            Transaction::Deposit { base, .. }
            | Transaction::Withdrawal { base, .. }
            | Transaction::Dispute { base, .. }
            | Transaction::Resolve { base, .. }
            | Transaction::Chargeback { base, .. } => base.tx,
        }
    }

    /// The amount of a deposit or withdrawal; the other kinds have none.
    pub fn amount(&self) -> (a: Option<Amount>)
        ensures
            a == (match *self {
                Transaction::Deposit { amount, .. } => Some(amount),
                Transaction::Withdrawal { amount, .. } => Some(amount),
                _ => None::<Amount>,
            }),
    {
        match self {
            Transaction::Deposit { amount, .. } | Transaction::Withdrawal { amount, .. } => {
                Some(*amount)
            },
            _ => None,
        }
    }
}

/// The balances of one client, as decimals.
#[derive(Debug, Clone, Copy)]
pub struct Account {
    pub available: Amount,
    pub held: Amount,
    pub total: Amount,
    pub locked: bool,
}

} // verus!
