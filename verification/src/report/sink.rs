//! Destinations of the final balances.
use vstd::prelude::*;

verus! {

/// Writes the balances as CSV to standard output.
pub struct CsvStdoutSink;

} // verus!
