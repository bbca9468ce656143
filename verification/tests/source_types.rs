use payments_engine::decimal::Decimal;
use payments_engine::engine::types::Tx;
use payments_engine::source::types::{TxCsvRow, TxCsvTypeRow, TxRowError};

#[test]
fn parses_deposit_row_into_transaction() {
    // type,client,tx,amount / deposit,1,10,1.2500
    let row = TxCsvRow {
        kind: TxCsvTypeRow::Deposit,
        client: 1,
        tx: 10,
        amount: Some(Decimal::new(12500, 4)),
    };

    let tx = Tx::try_from(row).expect("tx conversion should succeed");

    match tx {
        Tx::Deposit { base, amount } => {
            assert_eq!(base.client_id, 1);
            assert_eq!(base.tx, 10);
            assert_eq!(*amount, 12_500);
        }
        _ => panic!("expected deposit transaction"),
    }
}

#[test]
fn fails_when_deposit_amount_is_missing() {
    // type,client,tx,amount / deposit,1,10,
    let row = TxCsvRow {
        kind: TxCsvTypeRow::Deposit,
        client: 1,
        tx: 10,
        amount: None,
    };

    let result = Tx::try_from(row);

    assert!(result.is_err());
}

#[test]
fn withdrawal_without_amount_names_kind_and_tx() {
    let row = TxCsvRow {
        kind: TxCsvTypeRow::Withdrawal,
        client: 2,
        tx: 5,
        amount: None,
    };
    assert_eq!(
        Tx::try_from(row),
        Err(TxRowError::AmountMissing {
            kind: TxCsvTypeRow::Withdrawal,
            tx: 5
        })
    );
}

#[test]
fn out_of_range_amount_is_an_error() {
    let row = TxCsvRow {
        kind: TxCsvTypeRow::Deposit,
        client: 2,
        tx: 6,
        amount: Some(Decimal::new(i64::MAX, 0)),
    };
    assert_eq!(Tx::try_from(row), Err(TxRowError::AmountOutOfRange { tx: 6 }));
}

#[test]
fn reference_rows_ignore_amount() {
    for (kind, expect_dispute, expect_resolve) in [
        (TxCsvTypeRow::Dispute, true, false),
        (TxCsvTypeRow::Resolve, false, true),
        (TxCsvTypeRow::Chargeback, false, false),
    ] {
        let row = TxCsvRow {
            kind,
            client: 4,
            tx: 9,
            amount: Some(Decimal::new(1, 0)),
        };
        let tx = Tx::try_from(row).unwrap();
        assert_eq!(tx.client_id(), 4);
        assert_eq!(tx.tx_id(), 9);
        assert_eq!(matches!(tx, Tx::Dispute { .. }), expect_dispute);
        assert_eq!(matches!(tx, Tx::Resolve { .. }), expect_resolve);
    }
}

#[test]
fn withdrawal_row_scales_amount() {
    let row = TxCsvRow {
        kind: TxCsvTypeRow::Withdrawal,
        client: 8,
        tx: 3,
        amount: Some(Decimal::new(5, 1)),
    };
    match Tx::try_from(row).unwrap() {
        Tx::Withdrawal { base, amount } => {
            assert_eq!(base.client_id, 8);
            assert_eq!(*amount, 5_000);
        }
        _ => panic!("expected withdrawal transaction"),
    }
}
