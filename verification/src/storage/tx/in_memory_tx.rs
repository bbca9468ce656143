//! Transactions held in memory.
use crate::collections::{tx_entries, TxMap};
use crate::engine::types::{Tx, TxId};
use crate::storage::tx::tx_storage::TxStorage;
use vstd::prelude::*;

verus! {

/// Transactions in a hash map keyed by transaction id.
pub struct InMemoryTxStorage {
    storage: TxMap,
}

impl TxStorage for InMemoryTxStorage {
    closed spec fn txs(&self) -> Map<TxId, Tx> {
        tx_entries(self.storage)
    }

    fn new() -> (s: Self) {
        InMemoryTxStorage { storage: TxMap::new() }
    }

    fn save(&mut self, tx: Tx) {
        self.storage.insert(tx.tx_id(), tx);
    }

    fn get_by_id(&mut self, tx_id: &TxId) -> (r: Option<&Tx>) {
        self.storage.get(*tx_id)
    }
}

impl Default for InMemoryTxStorage {
    fn default() -> (s: Self)
        ensures
            s.txs() == Map::<TxId, Tx>::empty(),
    {
        <InMemoryTxStorage as TxStorage>::new()
    }
}

} // verus!
