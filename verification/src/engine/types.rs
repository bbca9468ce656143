//! Identifiers, fixed-point amounts, transactions and per-client account state.
use crate::collections::TxAmountMap;
use crate::decimal::{
    abs, checked_mul, decimal_product, lemma_pow10_positive, to_i64, truncated, Decimal,
    MAX_MANTISSA,
};
use vstd::prelude::*;

verus! {

/// Amounts are held in units of 1/10_000 (four decimal places).
pub const SCALING: i64 = 10_000;

pub type ClientId = u16;

pub type TxId = u32;

/// The client and the transaction id that every transaction carries.
#[derive(Debug, Clone, Copy, PartialEq, Eq, Structural)]
pub struct BaseTx {
    pub client_id: ClientId,
    pub tx: TxId,
}

impl BaseTx {
    pub fn new(client: ClientId, tx: TxId) -> (b: Self)
        ensures
            b.client_id == client,
            b.tx == tx,
    {
        Self { client_id: client, tx }
    }
}

/// A fixed-point amount: the number of units of 1/`SCALING`.
#[derive(Debug, Clone, Copy, PartialEq, Eq, Structural, PartialOrd, Ord)]
pub struct Amount(pub i64);

/// Whether an integer fits in an `i64`.
pub open spec fn fits_i64(v: int) -> bool {
    i64::MIN <= v <= i64::MAX
}

/// The units that `dec` scales to, through `rust_decimal`: the product with
/// `SCALING` with its fraction cut off, or `None` where the product overflows or
/// the units leave the `i64` range.
pub open spec fn scaled_units(dec: (i128, u32)) -> Option<i64> {
    match decimal_product(dec, (SCALING as i128, 0u32)) {
        Some(p) => if fits_i64(truncated(p.0 as int, p.1 as nat)) {
            Some(truncated(p.0 as int, p.1 as nat) as i64)
        } else {
            None
        },
        None => None,
    }
}

/// `dec * SCALING` with its fraction cut off, where that fits in an `i64`: what
/// `scaled_units` is wherever the scaled mantissa fits in 96 bits.
pub open spec fn exact_units(dec: (i128, u32)) -> Option<i64> {
    let t = truncated(dec.0 * SCALING, dec.1 as nat);
    if fits_i64(t) {
        Some(t as i64)
    } else {
        None
    }
}

impl Amount {
    /// Scales a decimal amount to units: `dec * SCALING`, fraction cut off.
    /// Where the scaled mantissa fits in 96 bits the result is exact.
    pub fn from_dec(dec_amount: Decimal) -> (a: Self)
        requires
            scaled_units(dec_amount@) is Some,
        ensures
            Some(a.0) == scaled_units(dec_amount@),
            abs(dec_amount@.0 * SCALING) <= MAX_MANTISSA ==> Some(a.0) == exact_units(dec_amount@),
    {
        proof {
            use_type_invariant(&dec_amount);
            Decimal::lemma_within_limits(dec_amount);
            lemma_pow10_positive(dec_amount@.1 as nat);
        }
        let scaled = checked_mul(dec_amount, Decimal::new(SCALING, 0));
        match scaled {
            Some(p) => {
                let units = to_i64(p);
                match units {
                    Some(u) => Amount(u),
                    None => {
                        assert(false);
                        Amount(0)
                    },
                }
            },
            None => {
                assert(false);
                Amount(0)
            },
        }
    }

    /// `Some(Amount::from_dec(dec))` where that scaling succeeds, `None` where it
    /// overflows.
    pub fn try_from_dec(dec_amount: Decimal) -> (a: Option<Self>)
        ensures
            a == (match scaled_units(dec_amount@) {
                Some(u) => Some(Amount(u)),
                None => None::<Amount>,
            }),
            abs(dec_amount@.0 * SCALING) <= MAX_MANTISSA ==> scaled_units(dec_amount@)
                == exact_units(dec_amount@),
    {
        proof {
            use_type_invariant(&dec_amount);
            Decimal::lemma_within_limits(dec_amount);
            lemma_pow10_positive(dec_amount@.1 as nat);
        }
        match checked_mul(dec_amount, Decimal::new(SCALING, 0)) {
            Some(p) => match to_i64(p) {
                Some(_) => Some(Amount::from_dec(dec_amount)),
                None => None,
            },
            None => None,
        }
    }
}


impl Amount {
    /// The sum of two amounts.
    pub fn add(self, rhs: Self) -> (r: Self)
        requires
            fits_i64(self.0 + rhs.0),
        ensures
            r.0 == self.0 + rhs.0,
    {
        Amount(self.0 + rhs.0)
    }

    /// The difference of two amounts.
    pub fn sub(self, rhs: Self) -> (r: Self)
        requires
            fits_i64(self.0 - rhs.0),
        ensures
            r.0 == self.0 - rhs.0,
    {
        Amount(self.0 - rhs.0)
    }

    pub fn add_assign(&mut self, rhs: Self)
        requires
            fits_i64(old(self).0 + rhs.0),
        ensures
            final(self).0 == old(self).0 + rhs.0,
    {
        self.0 = self.0 + rhs.0;
    }

    pub fn sub_assign(&mut self, rhs: Self)
        requires
            fits_i64(old(self).0 - rhs.0),
        ensures
            final(self).0 == old(self).0 - rhs.0,
    {
        self.0 = self.0 - rhs.0;
    }
}

impl std::ops::Deref for Amount {
    type Target = i64;

    fn deref(&self) -> (r: &i64)
        ensures
            *r == self.0,
    {
        &self.0
    }
}

impl Default for Amount {
    fn default() -> (a: Self)
        ensures
            a == Amount(0),
    {
        Amount(0)
    }
}

/// A transaction of the input stream.
#[derive(Debug, Clone, Copy, PartialEq, Eq, Structural)]
pub enum Tx {
    Deposit { base: BaseTx, amount: Amount },
    Withdrawal { base: BaseTx, amount: Amount },
    Dispute { base: BaseTx },
    Resolve { base: BaseTx },
    Chargeback { base: BaseTx },
}

impl Tx {
    pub open spec fn base_of(self) -> BaseTx {
        match self {
            Tx::Deposit { base, .. } => base,
            Tx::Withdrawal { base, .. } => base,
            Tx::Dispute { base } => base,
            Tx::Resolve { base } => base,
            Tx::Chargeback { base } => base,
        }
    }

    /// Deposits and withdrawals create a transaction id; the other kinds refer to one.
    pub open spec fn is_create(self) -> bool {
        self is Deposit || self is Withdrawal
    }

    pub fn client_id(&self) -> (c: ClientId)
        ensures
            c == self.base_of().client_id,
    {
        match self {
            Tx::Deposit { base, .. }
            | Tx::Withdrawal { base, .. }
            | Tx::Dispute { base }
            | Tx::Resolve { base }
            | Tx::Chargeback { base } => base.client_id,
        }
    }

    pub fn tx_id(&self) -> (t: TxId)
        ensures
            t == self.base_of().tx,
    {
        match self {
            Tx::Deposit { base, .. }
            | Tx::Withdrawal { base, .. }
            | Tx::Dispute { base }
            | Tx::Resolve { base }
            | Tx::Chargeback { base } => base.tx,
        }
    }
}

/// The balances of one client.
#[derive(Debug, Clone, Copy, PartialEq, Eq, Structural)]
pub struct Account {
    pub client_id: ClientId,
    pub available: Amount,
    pub held: Amount,
    pub total: Amount,
    pub locked: bool,
}

impl Account {
    /// The balances of a client that has had no transaction.
    pub open spec fn fresh(client_id: ClientId) -> Account {
        Account {
            client_id,
            available: Amount(0),
            held: Amount(0),
            total: Amount(0),
            locked: false,
        }
    }

    /// The total is what is available plus what is held.
    pub open spec fn is_balanced(self) -> bool {
        self.total.0 == self.available.0 + self.held.0
    }
}

impl Default for Account {
    fn default() -> (a: Self)
        ensures
            a == Account::fresh(0),
    {
        Account {
            client_id: 0,
            available: Amount(0),
            held: Amount(0),
            total: Amount(0),
            locked: false,
        }
    }
}

/// What is known of a client's state: its balances, the deposits that a dispute
/// can refer to (transaction id to units) and the open disputes.
pub struct AccountStateView {
    pub account: Account,
    pub deposits: Map<TxId, i64>,
    pub open_disputes: Map<TxId, i64>,
}

impl AccountStateView {
    pub open spec fn fresh(client_id: ClientId) -> AccountStateView {
        AccountStateView {
            account: Account::fresh(client_id),
            deposits: Map::empty(),
            open_disputes: Map::empty(),
        }
    }
}

/// A client's balances with the deposits it made and the disputes it has open.
pub struct AccountState {
    pub account: Account,
    pub deposits: TxAmountMap,
    pub open_disputes: TxAmountMap,
}

impl View for AccountState {
    type V = AccountStateView;

    open spec fn view(&self) -> AccountStateView {
        AccountStateView {
            account: self.account,
            deposits: self.deposits@,
            open_disputes: self.open_disputes@,
        }
    }
}

impl AccountState {
    /// The state of a client that has had no transaction.
    pub fn new(client_id: ClientId) -> (s: Self)
        ensures
            s@ == AccountStateView::fresh(client_id),
    {
        AccountState {
            account: Account {
                client_id,
                available: Amount(0),
                held: Amount(0),
                total: Amount(0),
                locked: false,
            },
            deposits: TxAmountMap::new(),
            open_disputes: TxAmountMap::new(),
        }
    }
}

impl Default for AccountState {
    fn default() -> (s: Self)
        ensures
            s@ == AccountStateView::fresh(0),
    {
        AccountState::new(0)
    }
}

} // verus!
