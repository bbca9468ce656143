//! A processor applies the transactions of its clients, one after another, to
//! the state it keeps of each client.
use crate::engine::account::lemma_changes_keep_balance;
use crate::engine::types::{
    fits_i64, Amount, AccountState, AccountStateView, BaseTx, ClientId, Tx, TxId,
};
use crate::storage::account_storage::{keyed_by_client, state_or_fresh, AccountStorage};
use vstd::prelude::*;

verus! {

/// A transaction that would take a balance out of the `i64` range.
#[derive(Debug, Clone, Copy, PartialEq, Eq, Structural)]
pub enum ProcessError {
    BalanceOverflow,
}

/// The state of a client after one of its transactions. Anything that does not
/// apply is ignored: any transaction on a locked account, a withdrawal of more than
/// is available, a dispute of a deposit that is unknown or already disputed, a
/// resolve or chargeback of a transaction that is not under dispute or of more than
/// is held.
pub open spec fn next_state(s: AccountStateView, tx: Tx) -> AccountStateView {
    let a = s.account;
    if a.locked {
        s
    } else {
        match tx {
            Tx::Deposit { base, amount } => AccountStateView {
                account: a.deposited(amount),
                deposits: s.deposits.insert(base.tx, amount.0),
                ..s
            },
            Tx::Withdrawal { base, amount } => if amount.0 > a.available.0 {
                s
            } else {
                AccountStateView { account: a.withdrawn(amount), ..s }
            },
            Tx::Dispute { base } => if !s.deposits.contains_key(base.tx)
                || s.open_disputes.contains_key(base.tx) {
                s
            } else {
                AccountStateView {
                    account: a.disputed(Amount(s.deposits[base.tx])),
                    open_disputes: s.open_disputes.insert(base.tx, s.deposits[base.tx]),
                    ..s
                }
            },
            Tx::Resolve { base } => if !s.open_disputes.contains_key(base.tx)
                || s.open_disputes[base.tx] > a.held.0 {
                s
            } else {
                AccountStateView {
                    account: a.resolved(Amount(s.open_disputes[base.tx])),
                    open_disputes: s.open_disputes.remove(base.tx),
                    ..s
                }
            },
            Tx::Chargeback { base } => if !s.open_disputes.contains_key(base.tx)
                || s.open_disputes[base.tx] > a.held.0 {
                s
            } else {
                AccountStateView {
                    account: a.charged_back(Amount(s.open_disputes[base.tx])),
                    open_disputes: s.open_disputes.remove(base.tx),
                    ..s
                }
            },
        }
    }
}

/// The balances that `tx` changes stay within the `i64` range.
pub open spec fn step_fits(s: AccountStateView, tx: Tx) -> bool {
    let a = s.account;
    a.locked || match tx {
        Tx::Deposit { base, amount } => a.deposit_fits(amount),
        Tx::Withdrawal { base, amount } => amount.0 > a.available.0 || a.withdrawal_fits(amount),
        Tx::Dispute { base } => !s.deposits.contains_key(base.tx) || s.open_disputes.contains_key(
            base.tx,
        ) || a.dispute_fits(Amount(s.deposits[base.tx])),
        Tx::Resolve { base } => !s.open_disputes.contains_key(base.tx)
            || s.open_disputes[base.tx] > a.held.0 || a.resolve_fits(
            Amount(s.open_disputes[base.tx]),
        ),
        Tx::Chargeback { base } => !s.open_disputes.contains_key(base.tx)
            || s.open_disputes[base.tx] > a.held.0 || a.chargeback_fits(
            Amount(s.open_disputes[base.tx]),
        ),
    }
}

/// The states of all clients after `tx`: its client's state advances (and is
/// created where there was none); every other client's stays as it was.
pub open spec fn apply_to_states(
    states: Map<ClientId, AccountStateView>,
    tx: Tx,
) -> Map<ClientId, AccountStateView> {
    let c = tx.base_of().client_id;
    states.insert(c, next_state(state_or_fresh(states, c), tx))
}

/// The states of all clients after `txs`, applied in order.
pub open spec fn run(
    states: Map<ClientId, AccountStateView>,
    txs: Seq<Tx>,
) -> Map<ClientId, AccountStateView>
    decreases txs.len(),
{
    if txs.len() == 0 {
        states
    } else {
        apply_to_states(run(states, txs.drop_last()), txs.last())
    }
}

/// Running no transaction changes nothing, running one applies it, and running
/// one sequence after another is running them joined.
pub proof fn lemma_run_composes(
    states: Map<ClientId, AccountStateView>,
    a: Seq<Tx>,
    b: Seq<Tx>,
    t: Tx,
)
    ensures
        run(states, Seq::<Tx>::empty()) == states,
        run(states, seq![t]) == apply_to_states(states, t),
        run(states, a + b) == run(run(states, a), b),
    decreases b.len(),
{
    assert(seq![t].drop_last() =~= Seq::<Tx>::empty());
    if b.len() == 0 {
        assert(a + b =~= a);
    } else {
        lemma_run_composes(states, a, b.drop_last(), t);
        assert((a + b).drop_last() =~= a + b.drop_last());
        assert((a + b).last() == b.last());
    }
}

/// Every transaction of `txs`, applied in order, keeps the balances it changes
/// within the `i64` range.
pub open spec fn run_fits(states: Map<ClientId, AccountStateView>, txs: Seq<Tx>) -> bool
    decreases txs.len(),
{
    if txs.len() == 0 {
        true
    } else {
        run_fits(states, txs.drop_last()) && step_fits(
            state_or_fresh(run(states, txs.drop_last()), txs.last().base_of().client_id),
            txs.last(),
        )
    }
}

/// The transactions of `txs` whose client satisfies `p`, in their order.
pub open spec fn for_clients(txs: Seq<Tx>, p: spec_fn(ClientId) -> bool) -> Seq<Tx>
    decreases txs.len(),
{
    if txs.len() == 0 {
        seq![]
    } else {
        let before = for_clients(txs.drop_last(), p);
        if p(txs.last().base_of().client_id) {
            before.push(txs.last())
        } else {
            before
        }
    }
}

/// The state filed under `c`, if any.
pub open spec fn lookup(states: Map<ClientId, AccountStateView>, c: ClientId) -> Option<
    AccountStateView,
> {
    if states.contains_key(c) {
        Some(states[c])
    } else {
        None
    }
}

/// A transaction changes the state of its own client only: the clients that
/// satisfy `p` end in the same state whether all of `txs` are applied or only
/// those of the clients that satisfy `p`; the other clients are not touched by
/// the latter. Likewise the balances stay in range for the one exactly where
/// they do so, for those clients, in the other.
pub proof fn lemma_run_for_clients(
    states: Map<ClientId, AccountStateView>,
    txs: Seq<Tx>,
    p: spec_fn(ClientId) -> bool,
)
    ensures
        forall|c: ClientId|
            #![trigger lookup(run(states, for_clients(txs, p)), c)]
            lookup(run(states, for_clients(txs, p)), c) == if p(c) {
                lookup(run(states, txs), c)
            } else {
                lookup(states, c)
            },
        run_fits(states, txs) ==> run_fits(states, for_clients(txs, p)),
    decreases txs.len(),
{
    if txs.len() > 0 {
        let prev = txs.drop_last();
        let t = txs.last();
        lemma_run_for_clients(states, prev, p);
        let f = for_clients(txs, p);
        let fp = for_clients(prev, p);
        if p(t.base_of().client_id) {
            assert(f.drop_last() =~= fp);
            assert(f.last() == t);
            assert(lookup(run(states, fp), t.base_of().client_id) == lookup(
                run(states, prev),
                t.base_of().client_id,
            ));
        } else {
            assert(f =~= fp);
        }
        assert forall|c: ClientId|
            #![trigger lookup(run(states, for_clients(txs, p)), c)]
            lookup(run(states, for_clients(txs, p)), c) == if p(c) {
                lookup(run(states, txs), c)
            } else {
                lookup(states, c)
            } by {
            assert(lookup(run(states, fp), c) == if p(c) {
                lookup(run(states, prev), c)
            } else {
                lookup(states, c)
            });
        }
    }
}

/// Applying transactions keeps every state filed under its own client.
pub proof fn lemma_run_keyed(states: Map<ClientId, AccountStateView>, txs: Seq<Tx>)
    requires
        keyed_by_client(states),
    ensures
        keyed_by_client(run(states, txs)),
    decreases txs.len(),
{
    if txs.len() > 0 {
        lemma_run_keyed(states, txs.drop_last());
        let before = run(states, txs.drop_last());
        let c = txs.last().base_of().client_id;
        assert(state_or_fresh(before, c).account.client_id == c);
    }
}

/// The sum of the amounts in `m`.
pub open spec fn sum_of(m: Map<TxId, i64>) -> int {
    m.dom().fold(0int, |acc: int, t: TxId| acc + m[t])
}

proof fn lemma_fold_agrees(
    s: Set<TxId>,
    f: spec_fn(int, TxId) -> int,
    g: spec_fn(int, TxId) -> int,
)
    requires
        s.finite(),
        vstd::set::fold::is_fun_commutative(f),
        vstd::set::fold::is_fun_commutative(g),
        forall|acc: int, t: TxId| s.contains(t) ==> #[trigger] f(acc, t) == g(acc, t),
    ensures
        s.fold(0int, f) == s.fold(0int, g),
    decreases s.len(),
{
    if s.len() == 0 {
        assert(s =~= Set::empty());
        vstd::set::fold::lemma_fold_empty(0int, f);
        vstd::set::fold::lemma_fold_empty(0int, g);
    } else {
        let t = s.choose();
        let r = s.remove(t);
        assert(r.insert(t) =~= s);
        lemma_fold_agrees(r, f, g);
        vstd::set::fold::lemma_fold_insert(r, 0int, f, t);
        vstd::set::fold::lemma_fold_insert(r, 0int, g, t);
    }
}

/// Adding an entry under a new key adds its amount to the sum.
pub proof fn lemma_sum_of_insert(m: Map<TxId, i64>, t: TxId, v: i64)
    requires
        m.dom().finite(),
        !m.contains_key(t),
    ensures
        sum_of(m.insert(t, v)) == sum_of(m) + v,
{
    let m2 = m.insert(t, v);
    let f = |acc: int, k: TxId| acc + m[k];
    let g = |acc: int, k: TxId| acc + m2[k];
    assert(vstd::set::fold::is_fun_commutative(f));
    assert(vstd::set::fold::is_fun_commutative(g));
    assert(m2.dom() =~= m.dom().insert(t));
    lemma_fold_agrees(m.dom(), f, g);
    vstd::set::fold::lemma_fold_insert(m.dom(), 0int, g, t);
}

/// Removing an entry takes its amount off the sum.
pub proof fn lemma_sum_of_remove(m: Map<TxId, i64>, t: TxId)
    requires
        m.dom().finite(),
        m.contains_key(t),
    ensures
        sum_of(m.remove(t)) == sum_of(m) - m[t],
{
    let r = m.remove(t);
    lemma_sum_of_insert(r, t, m[t]);
    assert(r.insert(t, m[t]) =~= m);
}

/// What holds of every client state: the total is what is available plus what is
/// held, what is held is the sum of the open disputes, and every open dispute
/// refers to a deposit of the client.
pub open spec fn state_invariant(s: AccountStateView) -> bool {
    &&& s.account.is_balanced()
    &&& s.open_disputes.dom().finite()
    &&& s.account.held.0 == sum_of(s.open_disputes)
    &&& forall|t: TxId| #[trigger] s.open_disputes.contains_key(t) ==> s.deposits.contains_key(t)
}

/// The invariant holds of every state in `states`.
pub open spec fn all_states_invariant(states: Map<ClientId, AccountStateView>) -> bool {
    forall|c: ClientId| #[trigger] states.contains_key(c) ==> state_invariant(states[c])
}

/// Every transaction whose balances stay in range keeps the state invariant.
pub proof fn lemma_next_state_keeps_invariant(s: AccountStateView, tx: Tx)
    requires
        state_invariant(s),
        step_fits(s, tx),
    ensures
        state_invariant(next_state(s, tx)),
{
    let a = s.account;
    if !a.locked {
        match tx {
            Tx::Deposit { base, amount } => lemma_changes_keep_balance(a, amount),
            Tx::Withdrawal { base, amount } => lemma_changes_keep_balance(a, amount),
            Tx::Dispute { base } => {
                lemma_changes_keep_balance(a, Amount(s.deposits[base.tx]));
                if s.deposits.contains_key(base.tx) && !s.open_disputes.contains_key(base.tx) {
                    lemma_sum_of_insert(s.open_disputes, base.tx, s.deposits[base.tx]);
                }
            },
            Tx::Resolve { base } => {
                lemma_changes_keep_balance(a, Amount(s.open_disputes[base.tx]));
                if s.open_disputes.contains_key(base.tx) {
                    lemma_sum_of_remove(s.open_disputes, base.tx);
                }
            },
            Tx::Chargeback { base } => {
                lemma_changes_keep_balance(a, Amount(s.open_disputes[base.tx]));
                if s.open_disputes.contains_key(base.tx) {
                    lemma_sum_of_remove(s.open_disputes, base.tx);
                }
            },
        }
    }
}

/// Starting from states that keep the invariant, every run whose balances stay in
/// range ends in states that keep it.
pub proof fn lemma_run_keeps_invariant(states: Map<ClientId, AccountStateView>, txs: Seq<Tx>)
    requires
        all_states_invariant(states),
        run_fits(states, txs),
    ensures
        all_states_invariant(run(states, txs)),
    decreases txs.len(),
{
    if txs.len() > 0 {
        lemma_run_keeps_invariant(states, txs.drop_last());
        let before = run(states, txs.drop_last());
        let c = txs.last().base_of().client_id;
        if !before.contains_key(c) {
            vstd::set::fold::lemma_fold_empty(0int, |acc: int, t: TxId| acc + Map::<TxId, i64>::empty()[t]);
            assert(Map::<TxId, i64>::empty().dom() =~= Set::<TxId>::empty());
        }
        assert(state_invariant(state_or_fresh(before, c)));
        lemma_next_state_keeps_invariant(state_or_fresh(before, c), txs.last());
    }
}

/// A withdrawal from an unlocked account: where no more than what is available is
/// asked for (and the balances stay in range) it lowers what is available and the
/// total by exactly that amount and changes nothing else; it is refused, changing
/// nothing, only where more than what is available is asked for.
pub proof fn lemma_withdrawal_effect(s: AccountStateView, base: BaseTx, w: Amount)
    requires
        !s.account.locked,
    ensures
        ({
            let n = next_state(s, Tx::Withdrawal { base, amount: w });
            w.0 <= s.account.available.0 && fits_i64(s.account.available.0 - w.0) && fits_i64(
                s.account.total.0 - w.0,
            ) ==> {
                &&& step_fits(s, Tx::Withdrawal { base, amount: w })
                &&& n.account.available.0 == s.account.available.0 - w.0
                &&& n.account.total.0 == s.account.total.0 - w.0
                &&& n.account.held == s.account.held
                &&& n.account.locked == s.account.locked
                &&& n.account.client_id == s.account.client_id
                &&& n.deposits == s.deposits
                &&& n.open_disputes == s.open_disputes
            }
        }),
        w.0 > s.account.available.0 ==> step_fits(s, Tx::Withdrawal { base, amount: w })
            && next_state(s, Tx::Withdrawal { base, amount: w }) == s,
{
}

/// A deposit to an unlocked account (whose balances stay in range) adds its amount
/// to what is available and to the total and records it under its id.
pub proof fn lemma_deposit_effect(s: AccountStateView, base: BaseTx, d: Amount)
    requires
        !s.account.locked,
        fits_i64(s.account.available.0 + d.0),
        fits_i64(s.account.total.0 + d.0),
    ensures
        ({
            let n = next_state(s, Tx::Deposit { base, amount: d });
            &&& step_fits(s, Tx::Deposit { base, amount: d })
            &&& n.account.available.0 == s.account.available.0 + d.0
            &&& n.account.total.0 == s.account.total.0 + d.0
            &&& n.account.held == s.account.held
            &&& !n.account.locked
            &&& n.account.client_id == s.account.client_id
            &&& n.deposits == s.deposits.insert(base.tx, d.0)
            &&& n.open_disputes == s.open_disputes
        }),
{
}

/// A dispute of a recorded deposit that is not yet disputed, on an unlocked
/// account (balances in range): the deposit's amount moves from what is available
/// to what is held, the total stays, and the dispute opens with that amount.
pub proof fn lemma_dispute_effect(s: AccountStateView, base: BaseTx)
    requires
        !s.account.locked,
        s.deposits.contains_key(base.tx),
        !s.open_disputes.contains_key(base.tx),
        fits_i64(s.account.available.0 - s.deposits[base.tx]),
        fits_i64(s.account.held.0 + s.deposits[base.tx]),
    ensures
        ({
            let n = next_state(s, Tx::Dispute { base });
            let a = s.deposits[base.tx];
            &&& step_fits(s, Tx::Dispute { base })
            &&& n.account.available.0 == s.account.available.0 - a
            &&& n.account.held.0 == s.account.held.0 + a
            &&& n.account.total == s.account.total
            &&& !n.account.locked
            &&& n.account.client_id == s.account.client_id
            &&& n.deposits == s.deposits
            &&& n.open_disputes == s.open_disputes.insert(base.tx, a)
        }),
{
}

/// A resolve of an open dispute whose amount is at most what is held, on an
/// unlocked account (balances in range): the amount moves from what is held back
/// to what is available, the total stays and the dispute closes, whatever other
/// disputes are open.
pub proof fn lemma_resolve_effect(s: AccountStateView, base: BaseTx)
    requires
        !s.account.locked,
        s.open_disputes.contains_key(base.tx),
        s.open_disputes[base.tx] <= s.account.held.0,
        fits_i64(s.account.held.0 - s.open_disputes[base.tx]),
        fits_i64(s.account.available.0 + s.open_disputes[base.tx]),
    ensures
        ({
            let n = next_state(s, Tx::Resolve { base });
            let a = s.open_disputes[base.tx];
            &&& step_fits(s, Tx::Resolve { base })
            &&& n.account.held.0 == s.account.held.0 - a
            &&& n.account.available.0 == s.account.available.0 + a
            &&& n.account.total == s.account.total
            &&& !n.account.locked
            &&& n.account.client_id == s.account.client_id
            &&& n.deposits == s.deposits
            &&& n.open_disputes == s.open_disputes.remove(base.tx)
        }),
{
}

/// A chargeback of an open dispute whose amount is at most what is held, on an
/// unlocked account (balances in range): the amount is taken off what is held and
/// off the total, what is available stays, the dispute closes and the account is
/// locked, whatever other disputes are open.
pub proof fn lemma_chargeback_effect(s: AccountStateView, base: BaseTx)
    requires
        !s.account.locked,
        s.open_disputes.contains_key(base.tx),
        s.open_disputes[base.tx] <= s.account.held.0,
        fits_i64(s.account.held.0 - s.open_disputes[base.tx]),
        fits_i64(s.account.total.0 - s.open_disputes[base.tx]),
    ensures
        ({
            let n = next_state(s, Tx::Chargeback { base });
            let a = s.open_disputes[base.tx];
            &&& step_fits(s, Tx::Chargeback { base })
            &&& n.account.held.0 == s.account.held.0 - a
            &&& n.account.total.0 == s.account.total.0 - a
            &&& n.account.available == s.account.available
            &&& n.account.locked
            &&& n.account.client_id == s.account.client_id
            &&& n.deposits == s.deposits
            &&& n.open_disputes == s.open_disputes.remove(base.tx)
        }),
{
}

/// References that do not apply change nothing: a dispute of a transaction that
/// is not a recorded deposit or is already under dispute, and a resolve or
/// chargeback of a transaction that is not under dispute or of more than is held.
pub proof fn lemma_inapplicable_references(s: AccountStateView, base: BaseTx)
    ensures
        !s.deposits.contains_key(base.tx) || s.open_disputes.contains_key(base.tx) ==> step_fits(
            s,
            Tx::Dispute { base },
        ) && next_state(s, Tx::Dispute { base }) == s,
        !s.open_disputes.contains_key(base.tx) || s.open_disputes[base.tx] > s.account.held.0
            ==> step_fits(s, Tx::Resolve { base }) && next_state(s, Tx::Resolve { base }) == s
            && step_fits(s, Tx::Chargeback { base }) && next_state(s, Tx::Chargeback { base })
            == s,
{
}

/// A transaction changes the state of its own client only, and that client has a
/// state afterwards; a client seen for the first time starts with nothing
/// available, held or in total, unlocked, with no deposit and no dispute.
pub proof fn lemma_apply_touches_own_client(states: Map<ClientId, AccountStateView>, tx: Tx)
    ensures
        apply_to_states(states, tx).contains_key(tx.base_of().client_id),
        forall|c: ClientId|
            c != tx.base_of().client_id ==> #[trigger] lookup(apply_to_states(states, tx), c)
                == lookup(states, c),
        !states.contains_key(tx.base_of().client_id) ==> {
            let f = state_or_fresh(states, tx.base_of().client_id);
            &&& f.account.client_id == tx.base_of().client_id
            &&& f.account.available.0 == 0 && f.account.held.0 == 0 && f.account.total.0 == 0
            &&& !f.account.locked
            &&& f.deposits.dom().len() == 0 && f.deposits.dom().finite()
            &&& f.open_disputes.dom().len() == 0 && f.open_disputes.dom().finite()
        },
{
    assert(Map::<TxId, i64>::empty().dom() =~= Set::<TxId>::empty());
}

/// A locked account is final: no transaction changes its client's state.
pub proof fn lemma_locked_state_is_final(
    states: Map<ClientId, AccountStateView>,
    txs: Seq<Tx>,
    c: ClientId,
)
    requires
        states.contains_key(c),
        states[c].account.locked,
    ensures
        lookup(run(states, txs), c) == lookup(states, c),
    decreases txs.len(),
{
    if txs.len() > 0 {
        lemma_locked_state_is_final(states, txs.drop_last(), c);
    }
}

fn fits_sum(a: i64, b: i64) -> (r: bool)
    ensures
        r == (i64::MIN <= a + b <= i64::MAX),
{
    let s: i128 = a as i128 + b as i128;
    i64::MIN as i128 <= s && s <= i64::MAX as i128
}

fn fits_difference(a: i64, b: i64) -> (r: bool)
    ensures
        r == (i64::MIN <= a - b <= i64::MAX),
{
    let s: i128 = a as i128 - b as i128;
    i64::MIN as i128 <= s && s <= i64::MAX as i128
}

impl AccountState {
    /// Applies `tx`, which belongs to this state's client, as `next_state` says;
    /// where a balance would leave the `i64` range, nothing changes and the
    /// overflow is reported.
    pub fn apply_tx(&mut self, tx: &Tx) -> (r: Result<(), ProcessError>)
        ensures
            step_fits(old(self)@, *tx) ==> r == Ok::<(), ProcessError>(()) && final(self)@
                == next_state(old(self)@, *tx),
            !step_fits(old(self)@, *tx) ==> r == Err::<(), ProcessError>(
                ProcessError::BalanceOverflow,
            ) && final(self)@ == old(self)@,
    {
        if self.account.locked {
            return Ok(());
        }
        match *tx {
            Tx::Deposit { base, amount } => {
                if !fits_sum(self.account.available.0, amount.0) || !fits_sum(
                    self.account.total.0,
                    amount.0,
                ) {
                    return Err(ProcessError::BalanceOverflow);
                }
                let _ = self.account.apply_deposit(amount);
                self.deposits.insert(base.tx, amount);
            },
            Tx::Withdrawal { base, amount } => {
                if amount.0 <= self.account.available.0 && (!fits_difference(
                    self.account.available.0,
                    amount.0,
                ) || !fits_difference(self.account.total.0, amount.0)) {
                    return Err(ProcessError::BalanceOverflow);
                }
                let _ = self.account.try_apply_withdrawal(amount);
            },
            Tx::Dispute { base } => {
                if self.open_disputes.contains_key(base.tx) {
                    return Ok(());
                }
                match self.deposits.get(base.tx) {
                    None => {
                        return Ok(());
                    },
                    Some(amount) => {
                        if !fits_difference(self.account.available.0, amount.0) || !fits_sum(
                            self.account.held.0,
                            amount.0,
                        ) {
                            return Err(ProcessError::BalanceOverflow);
                        }
                        let _ = self.account.apply_dispute(amount);
                        self.open_disputes.insert(base.tx, amount);
                    },
                }
            },
            Tx::Resolve { base } => {
                match self.open_disputes.get(base.tx) {
                    None => {
                        return Ok(());
                    },
                    Some(amount) => {
                        if amount.0 > self.account.held.0 {
                            return Ok(());
                        }
                        if !fits_difference(self.account.held.0, amount.0) || !fits_sum(
                            self.account.available.0,
                            amount.0,
                        ) {
                            return Err(ProcessError::BalanceOverflow);
                        }
                        let _ = self.account.apply_resolve(amount);
                        self.open_disputes.remove(base.tx);
                    },
                }
            },
            Tx::Chargeback { base } => {
                match self.open_disputes.get(base.tx) {
                    None => {
                        return Ok(());
                    },
                    Some(amount) => {
                        if amount.0 > self.account.held.0 {
                            return Ok(());
                        }
                        if !fits_difference(self.account.held.0, amount.0) || !fits_difference(
                            self.account.total.0,
                            amount.0,
                        ) {
                            return Err(ProcessError::BalanceOverflow);
                        }
                        let _ = self.account.apply_chargeback(amount);
                        self.open_disputes.remove(base.tx);
                    },
                }
            },
        }
        Ok(())
    }
}

/// One worker of the engine with the states of the clients routed to it.
pub struct TxProcessor<A: AccountStorage> {
    pub id: usize,
    pub account_storage: A,
}

impl<A: AccountStorage> TxProcessor<A> {
    /// A processor with no client yet.
    pub fn new(processor_id: usize) -> (p: Self)
        ensures
            p.id == processor_id,
            p.account_storage.states() == Map::<ClientId, AccountStateView>::empty(),
    {
        Self { account_storage: A::new(), id: processor_id }
    }

    /// Applies `tx` to the state of its client (created where there is none).
    /// Where a balance would leave the `i64` range, the client's state stays as it
    /// was and the overflow is reported.
    pub fn process_tx(&mut self, tx: Tx) -> (r: Result<(), ProcessError>)
        ensures
            final(self).id == old(self).id,
            step_fits(state_or_fresh(old(self).account_storage.states(), tx.base_of().client_id), tx)
                ==> r == Ok::<(), ProcessError>(()) && final(self).account_storage.states()
                == apply_to_states(old(self).account_storage.states(), tx),
            !step_fits(state_or_fresh(old(self).account_storage.states(), tx.base_of().client_id), tx)
                ==> r == Err::<(), ProcessError>(ProcessError::BalanceOverflow)
                && final(self).account_storage.states() == old(
                self,
            ).account_storage.states().insert(
                tx.base_of().client_id,
                state_or_fresh(old(self).account_storage.states(), tx.base_of().client_id),
            ),
    {
        let client_id = tx.client_id();
        let state = self.account_storage.get_state_by_id_mut(client_id);
        state.apply_tx(&tx)
    }
}

} // verus!
