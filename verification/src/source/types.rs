//! The rows of the input and the transactions they stand for.
use crate::decimal::Decimal;
use crate::decimal::{abs, MAX_MANTISSA};
use crate::engine::types::{exact_units, scaled_units, Amount, BaseTx, ClientId, Tx, TxId, SCALING};
use vstd::prelude::*;

verus! {

/// The `type` column of an input row.
#[derive(Debug, Clone, Copy, PartialEq, Eq, Structural)]
pub enum TxCsvTypeRow {
    Deposit,
    Withdrawal,
    Dispute,
    Resolve,
    Chargeback,
}

/// One input row: `type,client,tx,amount`, the amount being optional.
#[derive(Debug, Clone, Copy)]
pub struct TxCsvRow {
    pub kind: TxCsvTypeRow,
    pub client: ClientId,
    pub tx: TxId,
    pub amount: Option<Decimal>,
}

/// Why a row does not stand for a transaction.
#[derive(Debug, Clone, Copy, PartialEq, Eq, Structural)]
pub enum TxRowError {
    /// A deposit or withdrawal without an amount.
    AmountMissing { kind: TxCsvTypeRow, tx: TxId },
    /// An amount whose units leave the `i64` range.
    AmountOutOfRange { tx: TxId },
}

/// The transaction a row stands for: deposits and withdrawals need an amount,
/// scaled to units; the other kinds ignore the amount column.
pub open spec fn tx_of_row(row: TxCsvRow) -> Result<Tx, TxRowError> {
    let base = BaseTx { client_id: row.client, tx: row.tx };
    match row.kind {
        TxCsvTypeRow::Deposit => match row.amount {
            None => Err(TxRowError::AmountMissing { kind: row.kind, tx: row.tx }),
            Some(d) => match scaled_units(d@) {
                Some(u) => Ok(Tx::Deposit { base, amount: Amount(u) }),
                None => Err(TxRowError::AmountOutOfRange { tx: row.tx }),
            },
        },
        TxCsvTypeRow::Withdrawal => match row.amount {
            None => Err(TxRowError::AmountMissing { kind: row.kind, tx: row.tx }),
            Some(d) => match scaled_units(d@) {
                Some(u) => Ok(Tx::Withdrawal { base, amount: Amount(u) }),
                None => Err(TxRowError::AmountOutOfRange { tx: row.tx }),
            },
        },
        TxCsvTypeRow::Dispute => Ok(Tx::Dispute { base }),
        TxCsvTypeRow::Resolve => Ok(Tx::Resolve { base }),
        TxCsvTypeRow::Chargeback => Ok(Tx::Chargeback { base }),
    }
}

/// Where the scaled mantissa of `amount` fits in 96 bits, its units are exact.
pub open spec fn amount_is_exact(amount: Option<Decimal>) -> bool {
    match amount {
        Some(d) => abs(d@.0 * SCALING) <= MAX_MANTISSA ==> scaled_units(d@) == exact_units(d@),
        None => true,
    }
}

/// The client and id of a row.
pub open spec fn row_base(row: TxCsvRow) -> BaseTx {
    BaseTx { client_id: row.client, tx: row.tx }
}

/// A dispute, resolve or chargeback row always stands for the transaction of its
/// kind with its client and id, whatever its amount column holds (nothing
/// included); only a deposit or withdrawal row can be refused, for a missing
/// amount exactly where the amount column is empty; and a row that stands for a
/// transaction stands for one of its own kind with its client and id.
pub proof fn lemma_row_kinds(row: TxCsvRow)
    ensures
        row.kind == TxCsvTypeRow::Dispute ==> tx_of_row(row) == Ok::<Tx, TxRowError>(
            (Tx::Dispute { base: row_base(row) }),
        ),
        row.kind == TxCsvTypeRow::Resolve ==> tx_of_row(row) == Ok::<Tx, TxRowError>(
            (Tx::Resolve { base: row_base(row) }),
        ),
        row.kind == TxCsvTypeRow::Chargeback ==> tx_of_row(row) == Ok::<Tx, TxRowError>(
            (Tx::Chargeback { base: row_base(row) }),
        ),
        tx_of_row(row).is_err() ==> (row.kind == TxCsvTypeRow::Deposit || row.kind
            == TxCsvTypeRow::Withdrawal),
        (row.kind == TxCsvTypeRow::Deposit || row.kind == TxCsvTypeRow::Withdrawal) ==> (
        row.amount.is_none() <==> tx_of_row(row) == Err::<Tx, TxRowError>(
            (TxRowError::AmountMissing { kind: row.kind, tx: row.tx }),
        )),
        tx_of_row(row).is_ok() ==> (tx_of_row(row).unwrap().base_of() == row_base(row)),
        tx_of_row(row).is_ok() ==> ((row.kind == TxCsvTypeRow::Deposit) == (tx_of_row(
            row,
        ).unwrap() is Deposit)),
        tx_of_row(row).is_ok() ==> ((row.kind == TxCsvTypeRow::Withdrawal) == (tx_of_row(
            row,
        ).unwrap() is Withdrawal)),
{
}

fn row_amount(row: &TxCsvRow) -> (r: Result<Amount, TxRowError>)
    requires
        row.kind == TxCsvTypeRow::Deposit || row.kind == TxCsvTypeRow::Withdrawal,
    ensures
        r == (match row.amount {
            None => Err(TxRowError::AmountMissing { kind: row.kind, tx: row.tx }),
            Some(d) => match scaled_units(d@) {
                Some(u) => Ok(Amount(u)),
                None => Err(TxRowError::AmountOutOfRange { tx: row.tx }),
            },
        }),
        amount_is_exact(row.amount),
{
    match row.amount {
        None => Err(TxRowError::AmountMissing { kind: row.kind, tx: row.tx }),
        Some(d) => match Amount::try_from_dec(d) {
            Some(a) => Ok(a),
            None => Err(TxRowError::AmountOutOfRange { tx: row.tx }),
        },
    }
}

impl Tx {
    /// The transaction that `value` stands for.
    pub fn try_from(value: TxCsvRow) -> (r: Result<Tx, TxRowError>)
        ensures
            r == tx_of_row(value),
            value.kind == TxCsvTypeRow::Deposit || value.kind == TxCsvTypeRow::Withdrawal
                ==> amount_is_exact(value.amount),
    {
        let base = BaseTx::new(value.client, value.tx);
        match value.kind {
            TxCsvTypeRow::Deposit => match row_amount(&value) {
                Ok(amount) => Ok(Tx::Deposit { amount, base }),
                Err(e) => Err(e),
            },
            TxCsvTypeRow::Withdrawal => match row_amount(&value) {
                Ok(amount) => Ok(Tx::Withdrawal { amount, base }),
                Err(e) => Err(e),
            },
            TxCsvTypeRow::Dispute => Ok(Tx::Dispute { base }),
            TxCsvTypeRow::Resolve => Ok(Tx::Resolve { base }),
            TxCsvTypeRow::Chargeback => Ok(Tx::Chargeback { base }),
        }
    }
}

} // verus!
