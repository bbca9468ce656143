//! Where transactions are kept by id.
use crate::engine::types::{Tx, TxId};
use vstd::prelude::*;

verus! {

/// Transactions, saved and found by transaction id.
pub trait TxStorage: Sized {
    /// The transaction filed under each id.
    spec fn txs(&self) -> Map<TxId, Tx>;

    /// A storage with no transaction.
    fn new() -> (s: Self)
        ensures
            s.txs() == Map::<TxId, Tx>::empty(),
    ;

    /// Files `tx` under its id, replacing what was there.
    fn save(&mut self, tx: Tx)
        ensures
            final(self).txs() == old(self).txs().insert(tx.base_of().tx, tx),
    ;

    /// The transaction filed under `tx_id`, if any.
    fn get_by_id(&mut self, tx_id: &TxId) -> (r: Option<&Tx>)
        ensures
            final(self).txs() == old(self).txs(),
            r is Some <==> old(self).txs().contains_key(*tx_id),
            r matches Some(t) ==> *t == old(self).txs()[*tx_id],
    ;
}

} // verus!
