//! The final balances as output rows.
use crate::decimal::{
    decimal_text, decimal_value, lemma_decimal_text_reads_back, lemma_normalized_keeps_value,
    normalize, normalized, pow10, to_string, Decimal,
};
use crate::engine::types::SCALING;
use crate::engine::types::{Account, Amount};
use vstd::prelude::*;

pub mod sink;

verus! {

/// `SCALING` is `10` to this power: amounts have four decimal places.
pub const DECIMAL_PLACES: u32 = 4;

/// How an amount of `units` is written: as a decimal with four places and no
/// trailing fractional zeros ("1.5", "2", "-0.25").
pub open spec fn amount_text(units: i64) -> Seq<char> {
    let n = normalized(units as int, DECIMAL_PLACES as nat);
    decimal_text(n.0, n.1)
}

/// The text of an amount reads back as the amount: it shows at most four
/// fractional digits, and the digits it shows, as one integer, scaled up by the
/// places it leaves out, are the units. So the number the text writes, times
/// `SCALING` (ten to the fourth), is the number of units.
pub proof fn lemma_amount_text_reads_back(units: i64)
    ensures
        pow10(DECIMAL_PLACES as nat) == SCALING,
        decimal_value(amount_text(units)).1 <= DECIMAL_PLACES,
        decimal_value(amount_text(units)).0 * pow10(
            (DECIMAL_PLACES - decimal_value(amount_text(units)).1) as nat,
        ) == units,
{
    let stripped = normalized(units as int, DECIMAL_PLACES as nat);
    lemma_decimal_text_reads_back(stripped.0, stripped.1);
    lemma_normalized_keeps_value(units as int, DECIMAL_PLACES as nat);
    reveal_with_fuel(pow10, 5);
}

/// Writes an amount as a decimal number without trailing fractional zeros.
pub fn format_amount(amount: Amount) -> (s: String)
    ensures
        s@ == amount_text(amount.0),
{
    to_string(normalize(Decimal::new(amount.0, DECIMAL_PLACES)))
}

/// One output row: `client,available,held,total,locked`.
#[derive(Debug)]
pub struct AccountCsvRow {
    pub client: u16,
    pub available: String,
    pub held: String,
    pub total: String,
    pub locked: bool,
}

impl AccountCsvRow {
    /// The row that shows `value`.
    pub open spec fn shows(self, value: Account) -> bool {
        &&& self.client == value.client_id
        &&& self.available@ == amount_text(value.available.0)
        &&& self.held@ == amount_text(value.held.0)
        &&& self.total@ == amount_text(value.total.0)
        &&& self.locked == value.locked
    }

    /// The row of an account, its amounts formatted.
    pub fn from(value: &Account) -> (row: Self)
        ensures
            row.shows(*value),
    {
        Self {
            client: value.client_id,
            available: format_amount(value.available),
            held: format_amount(value.held),
            total: format_amount(value.total),
            locked: value.locked,
        }
    }
}

/// The final balances of all clients.
pub struct Report {
    accounts: Vec<Account>,
}

impl Report {
    pub closed spec fn accounts_spec(&self) -> Seq<Account> {
        self.accounts@
    }

    pub fn new(accounts: Vec<Account>) -> (r: Self)
        ensures
            r.accounts_spec() == accounts@,
    {
        Self { accounts }
    }

    /// The output rows, one per account, in the order of the accounts.
    pub fn rows(&self) -> (rows: Vec<AccountCsvRow>)
        ensures
            rows@.len() == self.accounts_spec().len(),
            forall|i: int| 0 <= i < rows@.len() ==> (#[trigger] rows@[i]).shows(self.accounts_spec()[i]),
    {
        let mut rows: Vec<AccountCsvRow> = Vec::new();
        let mut i: usize = 0;
        while i < self.accounts.len()
            invariant
                i <= self.accounts@.len(),
                rows@.len() == i,
                forall|j: int| 0 <= j < i ==> (#[trigger] rows@[j]).shows(self.accounts@[j]),
            decreases self.accounts@.len() - i,
        {
            rows.push(AccountCsvRow::from(&self.accounts[i]));
            i = i + 1;
        }
        rows
    }
}

} // verus!
