use payments_engine::decimal::Decimal;
use payments_engine::engine::types::{Amount, BaseTx, Tx};

#[test]
fn from_dec_scales_to_units() {
    assert_eq!(*Amount::from_dec(Decimal::new(25, 1)), 25_000);
    assert_eq!(*Amount::from_dec(Decimal::new(12500, 4)), 12_500);
    assert_eq!(*Amount::from_dec(Decimal::new(-3, 0)), -30_000);
    assert_eq!(*Amount::from_dec(Decimal::new(0, 7)), 0);
}

#[test]
fn from_dec_cuts_fraction_toward_zero() {
    assert_eq!(*Amount::from_dec(Decimal::new(123456, 5)), 12_345);
    assert_eq!(*Amount::from_dec(Decimal::new(-123456, 5)), -12_345);
}

#[test]
fn try_from_dec_reports_overflow() {
    assert_eq!(Amount::try_from_dec(Decimal::new(i64::MAX, 0)), None);
    assert_eq!(
        Amount::try_from_dec(Decimal::new(922_337_203_685_477, 0)),
        Some(Amount(9_223_372_036_854_770_000))
    );
    let big = Decimal::try_from_i128_with_scale(79_228_162_514_264_337_593_543_950_335, 0).unwrap();
    assert_eq!(Amount::try_from_dec(big), None);
}

#[test]
fn decimal_limits_are_checked() {
    assert!(Decimal::try_from_i128_with_scale(79_228_162_514_264_337_593_543_950_336, 0).is_none());
    assert!(Decimal::try_from_i128_with_scale(1, 29).is_none());
    let d = Decimal::try_from_i128_with_scale(-5, 28).unwrap();
    assert_eq!(d.mantissa(), -5);
    assert_eq!(d.scale(), 28);
}

#[test]
fn amount_arithmetic() {
    assert_eq!(Amount(7).add(Amount(5)), Amount(12));
    assert_eq!(Amount(7).sub(Amount(9)), Amount(-2));
    let mut a = Amount(1);
    a.add_assign(Amount(2));
    assert_eq!(a, Amount(3));
    a.sub_assign(Amount(5));
    assert_eq!(a, Amount(-2));
    assert_eq!(Amount::default(), Amount(0));
}

#[test]
fn tx_ids_and_clients() {
    let tx = Tx::Withdrawal {
        base: BaseTx::new(9, 77),
        amount: Amount(1),
    };
    assert_eq!(tx.client_id(), 9);
    assert_eq!(tx.tx_id(), 77);
    let tx = Tx::Chargeback {
        base: BaseTx::new(3, 4),
    };
    assert_eq!(tx.client_id(), 3);
    assert_eq!(tx.tx_id(), 4);
}
