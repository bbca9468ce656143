use payments_engine::engine::types::{Account, Amount, BaseTx, Tx};
use payments_engine::storage::account::account_storage::AccountStorage as AccountStore;
use payments_engine::storage::account::in_memory_account::InMemoryAccountStorage as InMemoryAccounts;
use payments_engine::storage::account_storage::AccountStorage;
use payments_engine::storage::in_memory_account::InMemoryAccountStorage;
use payments_engine::storage::tx::in_memory_tx::InMemoryTxStorage;
use payments_engine::storage::tx::tx_storage::TxStorage;

#[test]
fn creates_account_state_on_first_access() {
    let mut storage = InMemoryAccountStorage::default();

    {
        let state = storage.get_state_by_id_mut(42);
        assert_eq!(state.account.client_id, 42);
        assert!(state.deposits.is_empty());
        assert!(state.open_disputes.is_empty());
    }

    assert_eq!(storage.storage.len(), 1);
}

#[test]
fn report_state_returns_all_accounts() {
    let mut storage = InMemoryAccountStorage::default();

    storage.get_state_by_id_mut(1).account.locked = true;
    storage.get_state_by_id_mut(2).account.locked = false;

    let mut accounts = storage.report_state();
    accounts.sort_by_key(|account| account.client_id);

    assert_eq!(accounts.len(), 2);
    assert_eq!(accounts[0].client_id, 1);
    assert!(accounts[0].locked);
    assert_eq!(accounts[1].client_id, 2);
    assert!(!accounts[1].locked);
}

#[test]
fn state_written_through_reference_is_kept() {
    let mut storage = InMemoryAccountStorage::default();
    storage.get_state_by_id_mut(5).account.available = Amount(9);
    storage.get_state_by_id_mut(5).deposits.insert(1, Amount(9));
    let state = storage.get_state_by_id_mut(5);
    assert_eq!(state.account.available, Amount(9));
    assert_eq!(state.deposits.get(1), Some(Amount(9)));
    assert!(state.deposits.contains_key(1));
    state.deposits.remove(1);
    assert!(!state.deposits.contains_key(1));
    assert_eq!(storage.storage.len(), 1);
}

#[test]
fn account_storage_saves_and_finds_balances() {
    let mut store = InMemoryAccounts::default();
    let fresh = store.get_account_by_id(&3);
    assert_eq!(fresh, Account { client_id: 3, ..Account::default() });
    let mut changed = fresh;
    changed.total = Amount(10);
    changed.available = Amount(10);
    store.save(changed);
    assert_eq!(store.get_account_by_id(&3), changed);
    store.save(Account { client_id: 4, ..Account::default() });
    let mut all = store.report_state();
    all.sort_by_key(|a| a.client_id);
    assert_eq!(all, vec![changed, Account { client_id: 4, ..Account::default() }]);
}

#[test]
fn tx_storage_finds_saved_transactions() {
    let mut store = InMemoryTxStorage::default();
    let dispute = Tx::Dispute { base: BaseTx::new(1, 2) };
    assert_eq!(store.get_by_id(&2), None);
    store.save(dispute);
    assert_eq!(store.get_by_id(&2), Some(&dispute));
    let deposit = Tx::Deposit { base: BaseTx::new(1, 2), amount: Amount(5) };
    store.save(deposit);
    assert_eq!(store.get_by_id(&2), Some(&deposit));
}
