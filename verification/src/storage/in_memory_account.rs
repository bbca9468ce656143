//! Client states held in memory.
use crate::collections::{client_state_entries, ClientStateMap};
use crate::engine::types::{Account, AccountState, AccountStateView, ClientId};
use crate::storage::account_storage::{lists_balances, AccountStorage};
use vstd::prelude::*;

verus! {

/// Client states in a hash map keyed by client id.
pub struct InMemoryAccountStorage {
    pub storage: ClientStateMap,
}

impl InMemoryAccountStorage {
    pub open spec fn entries(&self) -> Map<ClientId, AccountStateView> {
        client_state_entries(self.storage).map_values(|s: AccountState| s@)
    }
}

impl AccountStorage for InMemoryAccountStorage {
    open spec fn states(&self) -> Map<ClientId, AccountStateView> {
        self.entries()
    }

    fn new() -> (s: Self) {
        let s = InMemoryAccountStorage { storage: ClientStateMap::new() };
        assert(s.entries() =~= Map::<ClientId, AccountStateView>::empty());
        s
    }

    fn get_state_by_id_mut(&mut self, client_id: ClientId) -> (r: &mut AccountState) {
        let r = self.storage.entry_or_insert_new(client_id);
        r
    }

    fn report_state(&self) -> (r: Vec<Account>) {
        let keys = self.storage.keys();
        let mut accounts: Vec<Account> = Vec::with_capacity(self.storage.len());
        let mut i: usize = 0;
        while i < keys.len()
            invariant
                i <= keys@.len(),
                keys@.no_duplicates(),
                keys@.to_set() == client_state_entries(self.storage).dom(),
                accounts@.len() == i,
                forall|j: int|
                    0 <= j < i ==> #[trigger] accounts@[j] == self.states()[keys@[j]].account,
            decreases keys@.len() - i,
        {
            let key = keys[i];
            assert(keys@.to_set().contains(key));
            match self.storage.get(key) {
                Some(state) => {
                    accounts.push(state.account);
                },
                None => {
                    assert(false);
                },
            }
            i = i + 1;
        }
        proof {
            assert(self.states().dom() =~= client_state_entries(self.storage).dom());
            assert(lists_balances(self.states(), keys@, accounts@));
        }
        accounts
    }
}

impl Default for InMemoryAccountStorage {
    fn default() -> (s: Self)
        ensures
            s.states() == Map::<ClientId, AccountStateView>::empty(),
    {
        <InMemoryAccountStorage as AccountStorage>::new()
    }
}

} // verus!
