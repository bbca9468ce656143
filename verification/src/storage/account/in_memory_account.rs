//! Balances held in memory.
use crate::collections::{client_account_entries, ClientAccountMap};
use crate::engine::types::{Account, Amount, ClientId};
use crate::storage::account::account_storage::AccountStorage;
use vstd::prelude::*;

verus! {

/// Balances in a hash map keyed by client id.
pub struct InMemoryAccountStorage {
    pub storage: ClientAccountMap,
}

impl AccountStorage for InMemoryAccountStorage {
    open spec fn accounts(&self) -> Map<ClientId, Account> {
        client_account_entries(self.storage)
    }

    fn new() -> (s: Self) {
        InMemoryAccountStorage { storage: ClientAccountMap::new() }
    }

    fn save(&mut self, account: Account) {
        self.storage.insert(account.client_id, account);
    }

    fn get_account_by_id(&mut self, client_id: &ClientId) -> (r: Account) {
        self.storage.entry_or_insert(
            *client_id,
            Account {
                client_id: *client_id,
                available: Amount(0),
                held: Amount(0),
                total: Amount(0),
                locked: false,
            },
        )
    }

    fn report_state(&self) -> (r: Vec<Account>) {
        let keys = self.storage.keys();
        let mut accounts: Vec<Account> = Vec::new();
        let mut i: usize = 0;
        while i < keys.len()
            invariant
                i <= keys@.len(),
                keys@.to_set() == client_account_entries(self.storage).dom(),
                accounts@.len() == i,
                forall|j: int| 0 <= j < i ==> #[trigger] accounts@[j] == self.accounts()[keys@[j]],
            decreases keys@.len() - i,
        {
            let key = keys[i];
            assert(keys@.to_set().contains(key));
            match self.storage.get(key) {
                Some(account) => {
                    accounts.push(account);
                },
                None => {
                    assert(false);
                },
            }
            i = i + 1;
        }
        assert(keys@.len() == accounts@.len());
        accounts
    }
}

impl Default for InMemoryAccountStorage {
    fn default() -> (s: Self)
        ensures
            s.accounts() == Map::<ClientId, Account>::empty(),
    {
        <InMemoryAccountStorage as AccountStorage>::new()
    }
}

} // verus!
