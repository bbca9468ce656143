# payments_engine

A payments engine: it reads deposit, withdrawal, dispute, resolve and chargeback
transactions from a CSV file, keeps per-client balances (available, held, total,
locked) and writes the final balances as CSV.

- `src/` is the library, verified with Verus:
  - `engine/types.rs`: fixed-point amounts (units of 1/10000), transactions,
    accounts and per-client state;
  - `engine/account.rs`, `engine/ops.rs`: balance changes of one account;
  - `engine/tx_processor.rs`: the per-client state machine (`next_state`), the
    processor that applies it, and the laws of runs of transactions;
  - `engine/tx_engine.rs`: duplicate filtering of create transactions, routing by
    `client % processors`, and a sequential pipeline whose result is proved equal
    to one store of all clients;
  - `storage/`: client and transaction stores;
  - `source/types.rs`: input rows to transactions; `report/`: output rows;
  - `decimal.rs`, `collections.rs`: the values and collections of `rust_decimal`
    and `hashbrown`, reached through trusted wrappers.
- `app/` is the program around it: command line, CSV reading and writing, and the
  tokio tasks that run the processors.
