//! Where balances are kept by client.
use crate::engine::types::{Account, ClientId};
use vstd::prelude::*;

verus! {

/// Balances, saved and found by client id.
pub trait AccountStorage: Sized {
    /// The balances of each client the storage has seen.
    spec fn accounts(&self) -> Map<ClientId, Account>;

    /// A storage with no client.
    fn new() -> (s: Self)
        ensures
            s.accounts() == Map::<ClientId, Account>::empty(),
    ;

    /// Files `account` under its client id, replacing what was there.
    fn save(&mut self, account: Account)
        ensures
            final(self).accounts() == old(self).accounts().insert(account.client_id, account),
    ;

    /// The balances of `client_id`, created as those of a new client where there
    /// are none.
    fn get_account_by_id(&mut self, client_id: &ClientId) -> (r: Account)
        ensures
            r == (if old(self).accounts().contains_key(*client_id) {
                old(self).accounts()[*client_id]
            } else {
                Account::fresh(*client_id)
            }),
            final(self).accounts() == old(self).accounts().insert(*client_id, r),
    ;

    /// The balances of every client, each once, in no particular order.
    fn report_state(&self) -> (r: Vec<Account>)
        ensures
            exists|ids: Seq<ClientId>|
                {
                    &&& ids.no_duplicates()
                    &&& ids.to_set() == self.accounts().dom()
                    &&& ids.len() == r@.len()
                    &&& forall|i: int| 0 <= i < ids.len() ==> r@[i] == self.accounts()[#[trigger] ids[i]]
                },
    ;
}

} // verus!
