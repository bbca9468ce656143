//! The hash maps and sets of the engine, each a `hashbrown` collection seen
//! through the entries it holds.
use crate::engine::types::{Account, AccountState, AccountStateView, Amount, ClientId, Tx, TxId};
use vstd::prelude::*;

verus! {

/// Amounts keyed by transaction id, held in a `hashbrown::HashMap`.
#[verifier::external_body]
pub struct TxAmountMap {
    inner: hashbrown::HashMap<TxId, Amount>,
}

/// The entries of a `TxAmountMap`: transaction id to amount in units.
pub uninterp spec fn tx_amount_entries(m: TxAmountMap) -> Map<TxId, i64>;

impl View for TxAmountMap {
    type V = Map<TxId, i64>;

    open spec fn view(&self) -> Map<TxId, i64> {
        tx_amount_entries(*self)
    }
}

impl TxAmountMap {
    /// `hashbrown::HashMap::new`: an empty map.
    #[verifier::external_body]
    pub fn new() -> (r: TxAmountMap)
        ensures
            tx_amount_entries(r) =~= Map::empty(),
    {
        TxAmountMap { inner: hashbrown::HashMap::new() }
    }

    /// `hashbrown::HashMap::get`: the amount stored under `tx`, if any.
    #[verifier::external_body]
    pub fn get(&self, tx: TxId) -> (r: Option<Amount>)
        ensures
            r is Some <==> tx_amount_entries(*self).contains_key(tx),
            r matches Some(a) ==> a.0 == tx_amount_entries(*self)[tx],
    {
        self.inner.get(&tx).copied()
    }

    /// `hashbrown::HashMap::contains_key`.
    #[verifier::external_body]
    pub fn contains_key(&self, tx: TxId) -> (r: bool)
        ensures
            r == tx_amount_entries(*self).contains_key(tx),
    {
        self.inner.contains_key(&tx)
    }

    /// `hashbrown::HashMap::insert`: `tx` now maps to `amount`.
    #[verifier::external_body]
    pub fn insert(&mut self, tx: TxId, amount: Amount)
        ensures
            tx_amount_entries(*final(self)) == tx_amount_entries(*old(self)).insert(tx, amount.0),
    {
        self.inner.insert(tx, amount);
    }

    /// `hashbrown::HashMap::remove`: `tx` no longer has an entry.
    #[verifier::external_body]
    pub fn remove(&mut self, tx: TxId)
        ensures
            tx_amount_entries(*final(self)) == tx_amount_entries(*old(self)).remove(tx),
    {
        self.inner.remove(&tx);
    }

    /// `hashbrown::HashMap::len`: the number of entries.
    #[verifier::external_body]
    pub fn len(&self) -> (r: usize)
        ensures
            r == tx_amount_entries(*self).dom().len(),
    {
        self.inner.len()
    }

    /// Whether the map has no entry.
    pub fn is_empty(&self) -> (r: bool)
        ensures
            r == (tx_amount_entries(*self).dom().len() == 0),
    {
        self.len() == 0
    }
}

/// Client states keyed by client id, held in a `hashbrown::HashMap`.
#[verifier::external_body]
pub struct ClientStateMap {
    inner: hashbrown::HashMap<ClientId, AccountState>,
}

/// The entries of a `ClientStateMap`.
pub uninterp spec fn client_state_entries(m: ClientStateMap) -> Map<ClientId, AccountState>;

impl ClientStateMap {
    /// `hashbrown::HashMap::new`: an empty map.
    #[verifier::external_body]
    pub fn new() -> (r: ClientStateMap)
        ensures
            client_state_entries(r) =~= Map::empty(),
    {
        ClientStateMap { inner: hashbrown::HashMap::new() }
    }

    /// `hashbrown::HashMap::entry` with `or_insert_with`: the state of `client_id`,
    /// first inserting the state of a new client where there is none. What is
    /// written through the reference is what the map holds afterwards.
    #[verifier::external_body]
    pub fn entry_or_insert_new(&mut self, client_id: ClientId) -> (r: &mut AccountState)
        ensures
            client_state_entries(*old(self)).contains_key(client_id) ==> *r == client_state_entries(
                *old(self),
            )[client_id],
            !client_state_entries(*old(self)).contains_key(client_id) ==> r@
                == AccountStateView::fresh(client_id),
            client_state_entries(*final(self)) == client_state_entries(*old(self)).insert(
                client_id,
                *final(r),
            ),
    {
        self.inner.entry(client_id).or_insert_with(|| AccountState::new(client_id))
    }

    /// `hashbrown::HashMap::get`: the state stored under `client_id`, if any.
    #[verifier::external_body]
    pub fn get(&self, client_id: ClientId) -> (r: Option<&AccountState>)
        ensures
            r is Some <==> client_state_entries(*self).contains_key(client_id),
            r matches Some(s) ==> *s == client_state_entries(*self)[client_id],
    {
        self.inner.get(&client_id)
    }

    /// `hashbrown::HashMap::keys`, collected: every client id once, in the order
    /// of the map's walk (which is left open).
    #[verifier::external_body]
    pub fn keys(&self) -> (r: Vec<ClientId>)
        ensures
            r@.no_duplicates(),
            r@.to_set() == client_state_entries(*self).dom(),
    {
        self.inner.keys().copied().collect()
    }

    /// `hashbrown::HashMap::len`.
    #[verifier::external_body]
    pub fn len(&self) -> (r: usize)
        ensures
            r == client_state_entries(*self).dom().len(),
    {
        self.inner.len()
    }
}

/// A set of transaction ids, held in a `hashbrown::HashSet`.
#[verifier::external_body]
pub struct TxIdSet {
    inner: hashbrown::HashSet<TxId>,
}

/// The members of a `TxIdSet`.
pub uninterp spec fn tx_id_members(s: TxIdSet) -> Set<TxId>;

impl TxIdSet {
    /// `hashbrown::HashSet::new`: an empty set.
    #[verifier::external_body]
    pub fn new() -> (r: TxIdSet)
        ensures
            tx_id_members(r) =~= Set::empty(),
    {
        TxIdSet { inner: hashbrown::HashSet::new() }
    }

    /// `hashbrown::HashSet::insert`: `tx` is a member afterwards; the result says
    /// whether it was not one before.
    #[verifier::external_body]
    pub fn insert(&mut self, tx: TxId) -> (r: bool)
        ensures
            r == !tx_id_members(*old(self)).contains(tx),
            tx_id_members(*final(self)) == tx_id_members(*old(self)).insert(tx),
    {
        self.inner.insert(tx)
    }
}

/// Balances keyed by client id, held in a `hashbrown::HashMap`.
#[verifier::external_body]
pub struct ClientAccountMap {
    inner: hashbrown::HashMap<ClientId, Account>,
}

/// The entries of a `ClientAccountMap`.
pub uninterp spec fn client_account_entries(m: ClientAccountMap) -> Map<ClientId, Account>;

impl ClientAccountMap {
    /// `hashbrown::HashMap::new`: an empty map.
    #[verifier::external_body]
    pub fn new() -> (r: ClientAccountMap)
        ensures
            client_account_entries(r) =~= Map::empty(),
    {
        ClientAccountMap { inner: hashbrown::HashMap::new() }
    }

    /// `hashbrown::HashMap::insert`: `client_id` now maps to `account`.
    #[verifier::external_body]
    pub fn insert(&mut self, client_id: ClientId, account: Account)
        ensures
            client_account_entries(*final(self)) == client_account_entries(*old(self)).insert(
                client_id,
                account,
            ),
    {
        self.inner.insert(client_id, account);
    }

    /// `hashbrown::HashMap::entry` with `or_insert`, copied out: the balances under
    /// `client_id`, first inserting `default` where there are none.
    #[verifier::external_body]
    pub fn entry_or_insert(&mut self, client_id: ClientId, default: Account) -> (r: Account)
        ensures
            r == (if client_account_entries(*old(self)).contains_key(client_id) {
                client_account_entries(*old(self))[client_id]
            } else {
                default
            }),
            client_account_entries(*final(self)) == client_account_entries(*old(self)).insert(
                client_id,
                r,
            ),
    {
        *self.inner.entry(client_id).or_insert(default)
    }

    /// `hashbrown::HashMap::get`, copied out.
    #[verifier::external_body]
    pub fn get(&self, client_id: ClientId) -> (r: Option<Account>)
        ensures
            r is Some <==> client_account_entries(*self).contains_key(client_id),
            r matches Some(a) ==> a == client_account_entries(*self)[client_id],
    {
        self.inner.get(&client_id).copied()
    }

    /// `hashbrown::HashMap::keys`, collected: every client id once, in the order
    /// of the map's walk (which is left open).
    #[verifier::external_body]
    pub fn keys(&self) -> (r: Vec<ClientId>)
        ensures
            r@.no_duplicates(),
            r@.to_set() == client_account_entries(*self).dom(),
    {
        self.inner.keys().copied().collect()
    }
}

/// Transactions keyed by transaction id, held in a `hashbrown::HashMap`.
#[verifier::external_body]
pub struct TxMap {
    inner: hashbrown::HashMap<TxId, Tx>,
}

/// The entries of a `TxMap`.
pub uninterp spec fn tx_entries(m: TxMap) -> Map<TxId, Tx>;

impl TxMap {
    /// `hashbrown::HashMap::new`: an empty map.
    #[verifier::external_body]
    pub fn new() -> (r: TxMap)
        ensures
            tx_entries(r) =~= Map::empty(),
    {
        TxMap { inner: hashbrown::HashMap::new() }
    }

    /// `hashbrown::HashMap::insert`: `tx_id` now maps to `tx`.
    #[verifier::external_body]
    pub fn insert(&mut self, tx_id: TxId, tx: Tx)
        ensures
            tx_entries(*final(self)) == tx_entries(*old(self)).insert(tx_id, tx),
    {
        self.inner.insert(tx_id, tx);
    }

    /// `hashbrown::HashMap::get`.
    #[verifier::external_body]
    pub fn get(&self, tx_id: TxId) -> (r: Option<&Tx>)
        ensures
            r is Some <==> tx_entries(*self).contains_key(tx_id),
            r matches Some(t) ==> *t == tx_entries(*self)[tx_id],
    {
        self.inner.get(&tx_id)
    }
}

} // verus!
