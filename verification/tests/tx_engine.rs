use payments_engine::engine::tx_engine::{processor_count, TxEngine};
use payments_engine::engine::tx_processor::{ProcessError, TxProcessor};
use payments_engine::engine::types::{Amount, BaseTx, Tx};
use payments_engine::storage::in_memory_account::InMemoryAccountStorage;
use payments_engine::storage::account_storage::AccountStorage;

const CLIENT_A: u16 = 1;
const CLIENT_B: u16 = 2;

fn amount_units(units: i64) -> Amount {
    Amount(units)
}

fn deposit(client_id: u16, tx: u32, units: i64) -> Tx {
    Tx::Deposit {
        base: BaseTx { client_id, tx },
        amount: amount_units(units),
    }
}

fn withdrawal(client_id: u16, tx: u32, units: i64) -> Tx {
    Tx::Withdrawal {
        base: BaseTx { client_id, tx },
        amount: amount_units(units),
    }
}

fn dispute(client_id: u16, tx: u32) -> Tx {
    Tx::Dispute {
        base: BaseTx { client_id, tx },
    }
}

fn resolve(client_id: u16, tx: u32) -> Tx {
    Tx::Resolve {
        base: BaseTx { client_id, tx },
    }
}

fn chargeback(client_id: u16, tx: u32) -> Tx {
    Tx::Chargeback {
        base: BaseTx { client_id, tx },
    }
}

fn sample_transactions() -> Vec<Tx> {
    vec![
        deposit(CLIENT_A, 1, 20_000),
        dispute(CLIENT_A, 1),
        resolve(CLIENT_A, 1),
        withdrawal(CLIENT_A, 2, 5_000),
        deposit(CLIENT_B, 3, 10_000),
        deposit(CLIENT_B, 3, 99_999),
    ]
}

#[test]
fn filters_duplicate_create_transactions_only() {
    let mut engine = TxEngine::new().init(1);

    let create = deposit(CLIENT_A, 11, 10_000);
    let dispute = dispute(CLIENT_A, 11);

    assert!(engine.filter_duplicate(&create));
    assert!(!engine.filter_duplicate(&create));
    assert!(engine.filter_duplicate(&dispute));
}

#[test]
fn processes_source_end_to_end() {
    let txs = sample_transactions();

    let mut engine = TxEngine::new().init(3);

    let mut accounts = engine
        .process_txs::<InMemoryAccountStorage>(&txs)
        .expect("processing should succeed");
    accounts.sort_by_key(|account| account.client_id);

    assert_eq!(accounts.len(), 2);
    assert_eq!(accounts[0].client_id, CLIENT_A);
    assert_eq!(*accounts[0].available, 15_000);
    assert_eq!(*accounts[0].held, 0);
    assert_eq!(*accounts[0].total, 15_000);
    assert!(!accounts[0].locked);

    assert_eq!(accounts[1].client_id, CLIENT_B);
    assert_eq!(*accounts[1].available, 10_000);
    assert_eq!(*accounts[1].held, 0);
    assert_eq!(*accounts[1].total, 10_000);
    assert!(!accounts[1].locked);
}

#[test]
fn n_processors_is_at_least_one() {
    for available in [0usize, 1, 2, 8, 64] {
        let processors = processor_count(available);
        assert!(processors >= 1);
    }
    assert_eq!(processor_count(8), 7);
    assert_eq!(processor_count(1), 1);
}

#[test]
fn withdrawal_ids_are_deduplicated_too() {
    let mut engine = TxEngine::new().init(2);
    assert!(engine.filter_duplicate(&withdrawal(CLIENT_A, 5, 1)));
    assert!(!engine.filter_duplicate(&deposit(CLIENT_B, 5, 1)));
    assert!(engine.filter_duplicate(&resolve(CLIENT_A, 5)));
    assert!(engine.filter_duplicate(&resolve(CLIENT_A, 5)));
}

#[test]
fn route_sends_each_client_to_one_processor() {
    let mut engine = TxEngine::new().init(4);
    assert_eq!(engine.route(&deposit(6, 1, 10)), Some(2));
    assert_eq!(engine.route(&dispute(6, 1)), Some(2));
    assert_eq!(engine.route(&deposit(6, 1, 10)), None);
    assert_eq!(engine.route(&withdrawal(9, 2, 1)), Some(1));
    assert_eq!(engine.dispatcher_id(&chargeback(12, 1)), 0);
}

#[test]
fn processor_applies_dispute_lifecycle() {
    let mut p = TxProcessor::<InMemoryAccountStorage>::new(0);
    assert_eq!(p.id, 0);
    p.process_tx(deposit(1, 1, 100)).unwrap();
    p.process_tx(deposit(1, 2, 50)).unwrap();
    p.process_tx(dispute(1, 1)).unwrap();
    // a second dispute of the same deposit is ignored
    p.process_tx(dispute(1, 1)).unwrap();
    // a dispute of an unknown deposit is ignored
    p.process_tx(dispute(1, 99)).unwrap();
    let acc = p.account_storage.report_state()[0];
    assert_eq!((*acc.available, *acc.held, *acc.total), (50, 100, 150));
    p.process_tx(chargeback(1, 1)).unwrap();
    let acc = p.account_storage.report_state()[0];
    assert_eq!((*acc.available, *acc.held, *acc.total, acc.locked), (50, 0, 50, true));
    // nothing changes a locked account
    p.process_tx(deposit(1, 3, 10)).unwrap();
    p.process_tx(withdrawal(1, 4, 10)).unwrap();
    let acc2 = p.account_storage.report_state()[0];
    assert_eq!(acc2, acc);
}

#[test]
fn ignored_transactions_still_create_the_client() {
    let mut engine = TxEngine::new().init(2);
    let txs = vec![resolve(3, 1), withdrawal(4, 2, 10), deposit(5, 3, 10), chargeback(5, 3)];
    let mut accounts = engine.process_txs::<InMemoryAccountStorage>(&txs).unwrap();
    accounts.sort_by_key(|a| a.client_id);
    assert_eq!(accounts.len(), 3);
    assert_eq!(*accounts[0].total, 0);
    assert_eq!(*accounts[1].total, 0);
    assert_eq!(*accounts[2].total, 10);
    assert!(!accounts[2].locked);
}

#[test]
fn overflowing_balance_is_reported() {
    let mut engine = TxEngine::new().init(2);
    let txs = vec![deposit(1, 1, i64::MAX), deposit(1, 2, 1)];
    assert_eq!(
        engine.process_txs::<InMemoryAccountStorage>(&txs),
        Err(ProcessError::BalanceOverflow)
    );
}

#[test]
fn same_result_with_any_number_of_processors() {
    let txs = vec![
        deposit(1, 1, 100),
        deposit(2, 2, 200),
        withdrawal(1, 3, 30),
        dispute(2, 2),
        deposit(3, 4, 7),
        chargeback(2, 2),
        deposit(2, 5, 1),
        resolve(1, 1),
        deposit(1, 1, 500),
    ];
    let mut reference = TxEngine::new()
        .init(1)
        .process_txs::<InMemoryAccountStorage>(&txs)
        .unwrap();
    reference.sort_by_key(|a| a.client_id);
    for n in 2..6 {
        let mut accounts = TxEngine::new()
            .init(n)
            .process_txs::<InMemoryAccountStorage>(&txs)
            .unwrap();
        accounts.sort_by_key(|a| a.client_id);
        assert_eq!(accounts, reference);
    }
    assert_eq!(*reference[0].total, 70);
    assert_eq!(*reference[1].total, 0);
    assert!(reference[1].locked);
    assert_eq!(*reference[2].total, 7);
}

#[test]
fn held_is_the_sum_of_open_disputes() {
    let mut p = TxProcessor::<InMemoryAccountStorage>::new(1);
    p.process_tx(deposit(4, 1, 300)).unwrap();
    p.process_tx(deposit(4, 2, 40)).unwrap();
    p.process_tx(deposit(4, 3, 5)).unwrap();
    p.process_tx(dispute(4, 1)).unwrap();
    p.process_tx(dispute(4, 3)).unwrap();
    let acc = p.account_storage.report_state()[0];
    assert_eq!(*acc.held, 305);
    assert_eq!(*acc.total, *acc.available + *acc.held);
    p.process_tx(resolve(4, 1)).unwrap();
    let acc = p.account_storage.report_state()[0];
    assert_eq!(*acc.held, 5);
    assert_eq!((*acc.available, *acc.total), (340, 345));
    // resolving again does nothing: the dispute is closed
    p.process_tx(resolve(4, 1)).unwrap();
    assert_eq!(p.account_storage.report_state()[0], acc);
}
