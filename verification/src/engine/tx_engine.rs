//! The engine: drops repeated create transactions and routes every other one to
//! the processor that owns its client.
use crate::collections::{tx_id_members, TxIdSet};
use crate::engine::tx_processor::{
    all_states_invariant, for_clients, lemma_run_for_clients, lemma_run_keeps_invariant,
    lemma_run_keyed, lookup, run, run_fits, ProcessError, TxProcessor,
};
use crate::engine::types::{Account, AccountStateView, ClientId, Tx, TxId};
use crate::storage::account_storage::{
    is_report, lemma_listing_is_report, lists_balances, AccountStorage,
};
use std::marker::PhantomData;
use vstd::prelude::*;

verus! {

/// An engine whose processors are not started yet.
pub struct Uninitialized;

/// An engine whose processors are started.
pub struct Initialized;

/// Whether the engine lets `tx` through after having seen the create
/// transactions `seen`: a deposit or withdrawal only with a new id, any other
/// transaction always.
pub open spec fn accepted(seen: Set<TxId>, tx: Tx) -> bool {
    !tx.is_create() || !seen.contains(tx.base_of().tx)
}

/// The create transaction ids seen after `tx`.
pub open spec fn seen_after(seen: Set<TxId>, tx: Tx) -> Set<TxId> {
    if tx.is_create() {
        seen.insert(tx.base_of().tx)
    } else {
        seen
    }
}

/// The create transaction ids seen after all of `txs`.
pub open spec fn seen_through(seen: Set<TxId>, txs: Seq<Tx>) -> Set<TxId>
    decreases txs.len(),
{
    if txs.len() == 0 {
        seen
    } else {
        seen_after(seen_through(seen, txs.drop_last()), txs.last())
    }
}

/// The transactions of `txs` that the engine lets through, in their order.
pub open spec fn deduplicated(seen: Set<TxId>, txs: Seq<Tx>) -> Seq<Tx>
    decreases txs.len(),
{
    if txs.len() == 0 {
        seq![]
    } else {
        let before = deduplicated(seen, txs.drop_last());
        if accepted(seen_through(seen, txs.drop_last()), txs.last()) {
            before.push(txs.last())
        } else {
            before
        }
    }
}

/// The processor that owns `client`'s transactions among `n` processors.
pub open spec fn owner(client: u16, n: usize) -> int {
    client as int % n as int
}

/// The clients that processor `k` of `n` owns.
pub open spec fn owned_by(k: int, n: usize) -> spec_fn(ClientId) -> bool {
    |c: ClientId| owner(c, n) == k
}

/// The engine's view of a sequence composes: what it sees and lets through of two
/// sequences one after the other is what it sees and lets through of the first,
/// followed by what it sees and lets through of the second after the first; a
/// single transaction goes through exactly when accepted.
pub proof fn lemma_deduplicated_composes(seen: Set<TxId>, a: Seq<Tx>, b: Seq<Tx>, t: Tx)
    ensures
        deduplicated(seen, Seq::<Tx>::empty()) == Seq::<Tx>::empty(),
        seen_through(seen, Seq::<Tx>::empty()) == seen,
        deduplicated(seen, seq![t]) == (if accepted(seen, t) {
            seq![t]
        } else {
            Seq::<Tx>::empty()
        }),
        seen_through(seen, seq![t]) == seen_after(seen, t),
        seen_through(seen, a + b) == seen_through(seen_through(seen, a), b),
        deduplicated(seen, a + b) == deduplicated(seen, a) + deduplicated(
            seen_through(seen, a),
            b,
        ),
    decreases b.len(),
{
    let one = seq![t];
    assert(one.drop_last() =~= Seq::<Tx>::empty());
    assert(one.last() == t);
    assert(seen_through(seen, one.drop_last()) == seen);
    assert(deduplicated(seen, one.drop_last()) == Seq::<Tx>::empty());
    assert(Seq::<Tx>::empty().push(t) =~= one);
    if b.len() == 0 {
        assert(a + b =~= a);
        assert(deduplicated(seen, a) + Seq::<Tx>::empty() =~= deduplicated(seen, a));
    } else {
        lemma_deduplicated_composes(seen, a, b.drop_last(), t);
        assert((a + b).drop_last() =~= a + b.drop_last());
        assert((a + b).last() == b.last());
        let d1 = deduplicated(seen, a);
        let d2 = deduplicated(seen_through(seen, a), b.drop_last());
        assert((d1 + d2).push(b.last()) =~= d1 + d2.push(b.last()));
    }
}

/// Whether some deposit or withdrawal of `txs` carries the id `id`.
pub open spec fn has_create_with_id(txs: Seq<Tx>, id: TxId) -> bool {
    exists|j: int| 0 <= j < txs.len() && (#[trigger] txs[j]).is_create() && txs[j].base_of().tx == id
}

/// The ids seen after a sequence are exactly those seen before and the ids of its
/// deposits and withdrawals: nothing else is marked as seen.
pub proof fn lemma_seen_through_is_create_ids(seen: Set<TxId>, txs: Seq<Tx>)
    ensures
        forall|id: TxId|
            #[trigger] seen_through(seen, txs).contains(id) <==> (seen.contains(id)
                || has_create_with_id(txs, id)),
    decreases txs.len(),
{
    if txs.len() > 0 {
        let prev = txs.drop_last();
        lemma_seen_through_is_create_ids(seen, prev);
        assert forall|id: TxId| #[trigger] seen_through(seen, txs).contains(id) <==> (seen.contains(id)
            || has_create_with_id(txs, id)) by {
            assert(seen_through(seen, prev).contains(id) == (seen.contains(id) || has_create_with_id(
                prev,
                id,
            )));
            let last = txs.len() - 1;
            assert(txs[last] == txs.last());
            if has_create_with_id(prev, id) {
                let j = choose|j: int|
                    0 <= j < prev.len() && (#[trigger] prev[j]).is_create() && prev[j].base_of().tx
                        == id;
                assert(txs[j] == prev[j]);
            }
            if has_create_with_id(txs, id) {
                let j = choose|j: int|
                    0 <= j < txs.len() && (#[trigger] txs[j]).is_create() && txs[j].base_of().tx
                        == id;
                if j < prev.len() {
                    assert(prev[j] == txs[j]);
                }
            }
        }
    }
}

/// The `i`-th transaction goes through exactly when it is a dispute, resolve or
/// chargeback, or a deposit or withdrawal whose id was not seen before and is not
/// the id of any earlier deposit or withdrawal.
pub proof fn lemma_accepted_iff_first_create(seen: Set<TxId>, txs: Seq<Tx>, i: int)
    requires
        0 <= i < txs.len(),
    ensures
        accepted(seen_through(seen, txs.take(i)), txs[i]) <==> (!txs[i].is_create() || (
        !seen.contains(txs[i].base_of().tx) && forall|j: int|
            0 <= j < i ==> !((#[trigger] txs[j]).is_create() && txs[j].base_of().tx
                == txs[i].base_of().tx))),
{
    let id = txs[i].base_of().tx;
    let pre = txs.take(i);
    lemma_seen_through_is_create_ids(seen, pre);
    assert(seen_through(seen, pre).contains(id) <==> (seen.contains(id) || has_create_with_id(
        pre,
        id,
    )));
    if has_create_with_id(pre, id) {
        let j = choose|j: int|
            0 <= j < pre.len() && (#[trigger] pre[j]).is_create() && pre[j].base_of().tx == id;
        assert(txs[j] == pre[j]);
    }
    if exists|j: int| 0 <= j < i && (#[trigger] txs[j]).is_create() && txs[j].base_of().tx == id {
        let j = choose|j: int| 0 <= j < i && (#[trigger] txs[j]).is_create() && txs[j].base_of().tx == id;
        assert(pre[j] == txs[j]);
    }
}

/// Among the transactions that the engine lets through, no two deposits or
/// withdrawals share an id, and none has an id that had been seen before; every
/// id seen before stays seen.
pub proof fn lemma_deduplicated_ids_unique(seen: Set<TxId>, txs: Seq<Tx>)
    ensures
        seen.subset_of(seen_through(seen, txs)),
        forall|i: int|
            0 <= i < deduplicated(seen, txs).len() && (#[trigger] deduplicated(seen, txs)[i]).is_create()
                ==> !seen.contains(deduplicated(seen, txs)[i].base_of().tx) && seen_through(
                seen,
                txs,
            ).contains(deduplicated(seen, txs)[i].base_of().tx),
        forall|i: int, j: int|
            0 <= i < j < deduplicated(seen, txs).len() && (#[trigger] deduplicated(seen, txs)[i]).is_create()
                && (#[trigger] deduplicated(seen, txs)[j]).is_create()
                ==> deduplicated(seen, txs)[i].base_of().tx != deduplicated(seen, txs)[j].base_of().tx,
    decreases txs.len(),
{
    if txs.len() > 0 {
        let prev = txs.drop_last();
        let t = txs.last();
        lemma_deduplicated_ids_unique(seen, prev);
        let dp = deduplicated(seen, prev);
        let d = deduplicated(seen, txs);
        let sp = seen_through(seen, prev);
        let s = seen_through(seen, txs);
        assert(sp.subset_of(s));
        if accepted(sp, t) {
            assert(d == dp.push(t));
            assert forall|i: int| 0 <= i < d.len() && (#[trigger] d[i]).is_create() implies !seen.contains(
                d[i].base_of().tx,
            ) && s.contains(d[i].base_of().tx) by {
                if i < dp.len() {
                    assert(d[i] == dp[i]);
                }
            }
            assert forall|i: int, j: int|
                0 <= i < j < d.len() && (#[trigger] d[i]).is_create() && (#[trigger] d[j]).is_create()
                    implies d[i].base_of().tx != d[j].base_of().tx by {
                assert(d[i] == dp[i]);
                if j < dp.len() {
                    assert(d[j] == dp[j]);
                } else {
                    assert(sp.contains(dp[i].base_of().tx));
                }
            }
        } else {
            assert(d == dp);
        }
    }
}

/// The transactions that the engine lets through before the `i`-th are the first
/// ones of those it lets through overall.
pub proof fn lemma_deduplicated_prefix(seen: Set<TxId>, txs: Seq<Tx>, i: int)
    requires
        0 <= i <= txs.len(),
    ensures
        deduplicated(seen, txs.take(i)).len() <= deduplicated(seen, txs).len(),
        deduplicated(seen, txs.take(i)) == deduplicated(seen, txs).take(
            deduplicated(seen, txs.take(i)).len() as int,
        ),
    decreases txs.len(),
{
    if i == txs.len() {
        assert(txs.take(i) =~= txs);
    } else {
        lemma_deduplicated_prefix(seen, txs.drop_last(), i);
        assert(txs.drop_last().take(i) =~= txs.take(i));
        let d = deduplicated(seen, txs.drop_last());
        assert(d.push(txs.last()).take(d.len() as int) =~= d);
    }
}

/// Balances that stay in range for a sequence of transactions stay in range for
/// its first ones.
pub proof fn lemma_run_fits_prefix(
    states: Map<ClientId, AccountStateView>,
    txs: Seq<Tx>,
    j: int,
)
    requires
        0 <= j <= txs.len(),
        run_fits(states, txs),
    ensures
        run_fits(states, txs.take(j)),
    decreases txs.len(),
{
    if j == txs.len() {
        assert(txs.take(j) =~= txs);
    } else {
        lemma_run_fits_prefix(states, txs.drop_last(), j);
        assert(txs.drop_last().take(j) =~= txs.take(j));
    }
}

/// The owner of a client is the processor index that is congruent to the client
/// id modulo the number of processors.
pub proof fn lemma_owner_is_remainder(client: u16, n: usize)
    requires
        n >= 1,
    ensures
        0 <= owner(client, n) < n,
        (client - owner(client, n)) % (n as int) == 0,
{
    let k = client as int / n as int;
    assert(client as int == k * n + owner(client, n)) by (nonlinear_arith)
        requires
            n >= 1,
            k == client as int / n as int,
            owner(client, n) == client as int % n as int,
    ;
    assert((client - owner(client, n)) == k * n);
    vstd::arithmetic::div_mod::lemma_mod_multiples_basic(k, n as int);
}

/// How many processors to start with `available` hardware threads: one thread is
/// left to the dispatcher, and there is always at least one processor.
pub fn processor_count(available: usize) -> (n: usize)
    ensures
        n >= 1,
        available > 1 ==> n == available - 1,
        available <= 1 ==> n == 1,
{
    if available > 1 {
        available - 1
    } else {
        1
    }
}

/// The dispatcher's state: how many processors there are and which create
/// transaction ids it has let through.
pub struct TxEngine<S> {
    n_processors: usize,
    processed_txs: TxIdSet,
    _state: PhantomData<S>,
}

impl<S> TxEngine<S> {
    pub closed spec fn processor_total(&self) -> usize {
        self.n_processors
    }

    pub closed spec fn seen(&self) -> Set<TxId> {
        tx_id_members(self.processed_txs)
    }
}

impl TxEngine<Uninitialized> {
    /// An engine that has seen no transaction.
    pub fn new() -> (e: Self)
        ensures
            e.seen() == Set::<TxId>::empty(),
            e.processor_total() == 0,
    {
        Self { n_processors: 0, processed_txs: TxIdSet::new(), _state: PhantomData }
    }

    /// The engine with `n_processors` processors.
    pub fn init(self, n_processors: usize) -> (e: TxEngine<Initialized>)
        requires
            n_processors >= 1,
        ensures
            e.processor_total() == n_processors,
            e.seen() == self.seen(),
    {
        TxEngine { n_processors, processed_txs: self.processed_txs, _state: PhantomData }
    }
}

impl TxEngine<Initialized> {
    /// Whether `tx` goes on: a deposit or withdrawal only the first time its
    /// id comes, any other transaction always.
    pub fn filter_duplicate(&mut self, tx: &Tx) -> (r: bool)
        ensures
            r == accepted(old(self).seen(), *tx),
            final(self).seen() == seen_after(old(self).seen(), *tx),
            final(self).processor_total() == old(self).processor_total(),
    {
        match tx {
            Tx::Deposit { .. } | Tx::Withdrawal { .. } => self.processed_txs.insert(tx.tx_id()),
            Tx::Dispute { .. } | Tx::Resolve { .. } | Tx::Chargeback { .. } => true,
        }
    }

    /// The processor that owns the client of `tx`.
    pub fn dispatcher_id(&self, tx: &Tx) -> (i: usize)
        requires
            self.processor_total() >= 1,
        ensures
            i == owner(tx.base_of().client_id, self.processor_total()),
            i < self.processor_total(),
    {
        tx.client_id() as usize % self.n_processors
    }

    /// Where `tx` goes: `None` for a repeated create transaction, else the
    /// processor that owns its client.
    pub fn route(&mut self, tx: &Tx) -> (r: Option<usize>)
        requires
            old(self).processor_total() >= 1,
        ensures
            r is Some <==> accepted(old(self).seen(), *tx),
            r matches Some(i) ==> i == owner(tx.base_of().client_id, old(self).processor_total()),
            final(self).seen() == seen_after(old(self).seen(), *tx),
            final(self).processor_total() == old(self).processor_total(),
    {
        if self.filter_duplicate(tx) {
            Some(self.dispatcher_id(tx))
        } else {
            None
        }
    }
}

impl TxEngine<Initialized> {
    /// Runs `txs` through the engine: repeated create transactions are dropped,
    /// every other one is applied by the processor that owns its client, and the
    /// balances of every client are reported. This is the result of applying the
    /// transactions that go through, in their order, to one store of all clients.
    /// A balance that would leave the `i64` range stops the run with an error.
    pub fn process_txs<A: AccountStorage>(&mut self, txs: &Vec<Tx>) -> (r: Result<
        Vec<Account>,
        ProcessError,
    >)
        requires
            old(self).processor_total() >= 1,
        ensures
            final(self).processor_total() == old(self).processor_total(),
            r is Ok <==> run_fits(
                Map::<ClientId, AccountStateView>::empty(),
                deduplicated(old(self).seen(), txs@),
            ),
            r matches Ok(accounts) ==> is_report(
                run(
                    Map::<ClientId, AccountStateView>::empty(),
                    deduplicated(old(self).seen(), txs@),
                ),
                accounts@,
            ),
            r is Ok ==> final(self).seen() == seen_through(old(self).seen(), txs@),
            r matches Ok(accounts) ==> forall|i: int|
                0 <= i < accounts@.len() ==> (#[trigger] accounts@[i]).is_balanced(),
    {
        let n = self.n_processors;
        let ghost empty = Map::<ClientId, AccountStateView>::empty();
        let ghost seen0 = self.seen();
        let mut processors: Vec<TxProcessor<A>> = Vec::new();
        let mut k: usize = 0;
        while k < n
            invariant
                empty == Map::<ClientId, AccountStateView>::empty(),
                k <= n,
                processors@.len() == k,
                forall|j: int|
                    0 <= j < k ==> (#[trigger] processors@[j]).account_storage.states() == empty,
            decreases n - k,
        {
            processors.push(TxProcessor::new(k));
            k = k + 1;
        }
        let mut i: usize = 0;
        while i < txs.len()
            invariant
                empty == Map::<ClientId, AccountStateView>::empty(),
                seen0 == old(self).seen(),
                old(self).processor_total() == n,
                n >= 1,
                self.processor_total() == n,
                i <= txs@.len(),
                processors@.len() == n,
                self.seen() == seen_through(seen0, txs@.take(i as int)),
                run_fits(empty, deduplicated(seen0, txs@.take(i as int))),
                forall|j: int|
                    0 <= j < n ==> (#[trigger] processors@[j]).account_storage.states() == run(
                        empty,
                        for_clients(deduplicated(seen0, txs@.take(i as int)), owned_by(j, n)),
                    ),
            decreases txs@.len() - i,
        {
            let tx = txs[i];
            let ghost d = deduplicated(seen0, txs@.take(i as int));
            assert(txs@.take(i + 1).drop_last() =~= txs@.take(i as int));
            assert(txs@.take(i + 1).last() == tx);
            let route = self.route(&tx);
            match route {
                Some(k) => {
                    let ghost c = tx.base_of().client_id;
                    let ghost d2 = d.push(tx);
                    assert(d2.drop_last() =~= d);
                    proof {
                        lemma_run_for_clients(empty, d, owned_by(k as int, n));
                        assert(lookup(run(empty, for_clients(d, owned_by(k as int, n))), c) == lookup(
                            run(empty, d),
                            c,
                        ));
                        assert forall|j: int| 0 <= j < n && j != k implies for_clients(
                            d2,
                            owned_by(j, n),
                        ) == for_clients(d, owned_by(j, n)) by {}
                        assert(for_clients(d2, owned_by(k as int, n)) == for_clients(
                            d,
                            owned_by(k as int, n),
                        ).push(tx));
                        assert(for_clients(d2, owned_by(k as int, n)).drop_last() =~= for_clients(
                            d,
                            owned_by(k as int, n),
                        ));
                    }
                    let res = processors[k].process_tx(tx);
                    if res.is_err() {
                        proof {
                            lemma_deduplicated_prefix(seen0, txs@, i + 1);
                            let dall = deduplicated(seen0, txs@);
                            if run_fits(empty, dall) {
                                lemma_run_fits_prefix(empty, dall, d2.len() as int);
                            }
                        }
                        return Err(ProcessError::BalanceOverflow);
                    }
                },
                None => {},
            }
            i = i + 1;
        }
        assert(txs@.take(txs@.len() as int) =~= txs@);
        let ghost d = deduplicated(seen0, txs@);
        let ghost all = run(empty, d);
        let mut accounts: Vec<Account> = Vec::new();
        let mut k: usize = 0;
        while k < n
            invariant
                empty == Map::<ClientId, AccountStateView>::empty(),
                all == run(empty, d),
                n >= 1,
                k <= n,
                processors@.len() == n,
                forall|j: int|
                    0 <= j < n ==> (#[trigger] processors@[j]).account_storage.states() == run(
                        empty,
                        for_clients(d, owned_by(j, n)),
                    ),
                forall|a: int|
                    0 <= a < accounts@.len() ==> all.contains_key(
                        #[trigger] accounts@[a].client_id,
                    ) && all[accounts@[a].client_id].account == accounts@[a] && owner(
                        accounts@[a].client_id,
                        n,
                    ) < k,
                forall|a: int, b: int|
                    0 <= a < accounts@.len() && 0 <= b < accounts@.len() && a != b
                        ==> accounts@[a].client_id != accounts@[b].client_id,
                forall|c: ClientId|
                    #[trigger] all.contains_key(c) && owner(c, n) < k ==> exists|a: int|
                        0 <= a < accounts@.len() && accounts@[a].client_id == c,
            decreases n - k,
        {
            let ghost owned = run(empty, for_clients(d, owned_by(k as int, n)));
            proof {
                lemma_run_for_clients(empty, d, owned_by(k as int, n));
                lemma_run_keyed(empty, for_clients(d, owned_by(k as int, n)));
                assert forall|c: ClientId| #[trigger] owned.contains_key(c) implies owner(c, n) == k
                    && all.contains_key(c) && all[c] == owned[c] by {
                    assert(lookup(owned, c) == if owned_by(k as int, n)(c) {
                        lookup(all, c)
                    } else {
                        lookup(empty, c)
                    });
                }
                assert forall|c: ClientId|
                    #[trigger] all.contains_key(c) && owner(c, n) == k implies owned.contains_key(
                    c,
                ) by {
                    assert(lookup(owned, c) == if owned_by(k as int, n)(c) {
                        lookup(all, c)
                    } else {
                        lookup(empty, c)
                    });
                }
            }
            let mut report = processors[k].account_storage.report_state();
            let ghost before = accounts@;
            let ghost rep = report@;
            proof {
                let ids = choose|ids: Seq<ClientId>| lists_balances(owned, ids, rep);
                lemma_listing_is_report(owned, ids, rep);
            }
            accounts.append(&mut report);
            proof {
                assert forall|a: int| 0 <= a < accounts@.len() implies all.contains_key(
                    #[trigger] accounts@[a].client_id,
                ) && all[accounts@[a].client_id].account == accounts@[a] && owner(
                    accounts@[a].client_id,
                    n,
                ) < k + 1 by {
                    if a >= before.len() {
                        assert(accounts@[a] == rep[a - before.len()]);
                        assert(owned.contains_key(rep[a - before.len()].client_id));
                    }
                }
                assert forall|a: int, b: int|
                    0 <= a < accounts@.len() && 0 <= b < accounts@.len() && a != b
                        implies accounts@[a].client_id != accounts@[b].client_id by {
                    if a >= before.len() {
                        assert(owned.contains_key(rep[a - before.len()].client_id));
                    }
                    if b >= before.len() {
                        assert(owned.contains_key(rep[b - before.len()].client_id));
                    }
                }
                assert forall|c: ClientId|
                    #[trigger] all.contains_key(c) && owner(c, n) < k + 1 implies exists|a: int|
                        0 <= a < accounts@.len() && accounts@[a].client_id == c by {
                    if owner(c, n) == k {
                        assert(owned.contains_key(c));
                        let x = choose|x: int| 0 <= x < rep.len() && rep[x].client_id == c;
                        assert(accounts@[before.len() + x] == rep[x]);
                    } else {
                        let a = choose|a: int| 0 <= a < before.len() && before[a].client_id == c;
                        assert(accounts@[a] == before[a]);
                    }
                }
            }
            k = k + 1;
        }
        proof {
            assert(all_states_invariant(empty));
            lemma_run_keeps_invariant(empty, d);
            assert forall|i: int| 0 <= i < accounts@.len() implies (
            #[trigger] accounts@[i]).is_balanced() by {
                assert(all.contains_key(accounts@[i].client_id));
            }
            assert forall|c: ClientId| #[trigger] all.contains_key(c) implies exists|a: int|
                0 <= a < accounts@.len() && accounts@[a].client_id == c by {
                assert(owner(c, n) < n);
            }
        }
        Ok(accounts)
    }
}

} // verus!
