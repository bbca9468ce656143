use payments_engine::decimal::Decimal;
use payments_engine::engine::types::{Account, Amount};
use payments_engine::report::{format_amount, AccountCsvRow, Report};

fn amount(v: Decimal) -> Amount {
    Amount::from_dec(v)
}

#[test]
fn formats_amount_with_trimmed_trailing_zeros() {
    assert_eq!(format_amount(amount(Decimal::new(15000, 4))), "1.5");
    assert_eq!(format_amount(amount(Decimal::new(20000, 4))), "2");
}

#[test]
fn row_projection_uses_formatted_amounts() {
    let account = Account {
        client_id: 3,
        available: amount(Decimal::new(12340, 4)),
        held: amount(Decimal::new(10, 1)),
        total: amount(Decimal::new(22340, 4)),
        locked: true,
    };

    let row = AccountCsvRow::from(&account);
    assert_eq!(row.client, 3);
    assert_eq!(row.available, "1.234");
    assert_eq!(row.held, "1");
    assert_eq!(row.total, "2.234");
    assert!(row.locked);
}

#[test]
fn formats_small_negative_and_zero_amounts() {
    assert_eq!(format_amount(Amount(0)), "0");
    assert_eq!(format_amount(Amount(1)), "0.0001");
    assert_eq!(format_amount(Amount(-2500)), "-0.25");
    assert_eq!(format_amount(Amount(-120_000)), "-12");
    assert_eq!(format_amount(Amount(1_000_500)), "100.05");
}

#[test]
fn report_rows_follow_accounts() {
    let accounts = vec![
        Account {
            client_id: 7,
            available: Amount(25000),
            held: Amount(0),
            total: Amount(25000),
            locked: false,
        },
        Account {
            client_id: 8,
            available: Amount(-5000),
            held: Amount(5000),
            total: Amount(0),
            locked: true,
        },
    ];
    let rows = Report::new(accounts).rows();
    assert_eq!(rows.len(), 2);
    assert_eq!(rows[0].client, 7);
    assert_eq!(rows[0].available, "2.5");
    assert_eq!(rows[0].held, "0");
    assert_eq!(rows[0].total, "2.5");
    assert!(!rows[0].locked);
    assert_eq!(rows[1].client, 8);
    assert_eq!(rows[1].available, "-0.5");
    assert_eq!(rows[1].held, "0.5");
    assert_eq!(rows[1].total, "0");
    assert!(rows[1].locked);
}
