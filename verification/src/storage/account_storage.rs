//! Where a processor keeps the state of its clients.
use crate::engine::types::{Account, AccountState, AccountStateView, ClientId};
use vstd::prelude::*;

verus! {

/// Each state is filed under the id of the client it belongs to.
pub open spec fn keyed_by_client(states: Map<ClientId, AccountStateView>) -> bool {
    forall|c: ClientId| #[trigger] states.contains_key(c) ==> states[c].account.client_id == c
}

/// The state of `client_id`, or that of a new client where there is none.
pub open spec fn state_or_fresh(
    states: Map<ClientId, AccountStateView>,
    client_id: ClientId,
) -> AccountStateView {
    if states.contains_key(client_id) {
        states[client_id]
    } else {
        AccountStateView::fresh(client_id)
    }
}

/// `accounts` holds the balances filed under each client id of `states` once,
/// in the order of `ids`.
pub open spec fn lists_balances(
    states: Map<ClientId, AccountStateView>,
    ids: Seq<ClientId>,
    accounts: Seq<Account>,
) -> bool {
    &&& ids.no_duplicates()
    &&& ids.to_set() == states.dom()
    &&& ids.len() == accounts.len()
    &&& forall|i: int| 0 <= i < ids.len() ==> accounts[i] == states[#[trigger] ids[i]].account
}

/// `accounts` lists the balances of every client of `states`, each once, in some
/// order.
pub open spec fn is_report(states: Map<ClientId, AccountStateView>, accounts: Seq<Account>) -> bool {
    &&& forall|i: int|
        0 <= i < accounts.len() ==> states.contains_key(#[trigger] accounts[i].client_id)
            && states[accounts[i].client_id].account == accounts[i]
    &&& forall|i: int, j: int|
        0 <= i < accounts.len() && 0 <= j < accounts.len() && i != j ==> accounts[i].client_id
            != accounts[j].client_id
    &&& forall|c: ClientId|
        #[trigger] states.contains_key(c) ==> exists|i: int|
            0 <= i < accounts.len() && accounts[i].client_id == c
}

/// Where every state is filed under its own client, a listing of the balances is a
/// report: each client once, under its own id.
pub proof fn lemma_listing_is_report(
    states: Map<ClientId, AccountStateView>,
    ids: Seq<ClientId>,
    accounts: Seq<Account>,
)
    requires
        keyed_by_client(states),
        lists_balances(states, ids, accounts),
    ensures
        is_report(states, accounts),
{
    assert forall|i: int| 0 <= i < accounts.len() implies states.contains_key(
        #[trigger] accounts[i].client_id,
    ) && accounts[i].client_id == ids[i] by {
        assert(ids.to_set().contains(ids[i]));
        assert(states.contains_key(ids[i]));
    }
    assert forall|i: int, j: int|
        0 <= i < accounts.len() && 0 <= j < accounts.len() && i != j implies accounts[i].client_id
        != accounts[j].client_id by {
        assert(accounts[i].client_id == ids[i]);
        assert(accounts[j].client_id == ids[j]);
    }
    assert forall|c: ClientId| #[trigger] states.contains_key(c) implies exists|i: int|
        0 <= i < accounts.len() && accounts[i].client_id == c by {
        assert(ids.to_set().contains(c));
        let i = choose|i: int| 0 <= i < ids.len() && ids[i] == c;
        assert(accounts[i].client_id == ids[i]);
    }
}

/// Client states, found or created by client id.
pub trait AccountStorage: Sized {
    /// The state of each client the storage has seen.
    spec fn states(&self) -> Map<ClientId, AccountStateView>;

    /// A storage with no client.
    fn new() -> (s: Self)
        ensures
            s.states() == Map::<ClientId, AccountStateView>::empty(),
    ;

    /// The state of `client_id`, created as that of a new client where there is
    /// none. What is written through the reference is what the storage holds.
    fn get_state_by_id_mut(&mut self, client_id: ClientId) -> (r: &mut AccountState)
        ensures
            r@ == state_or_fresh(old(self).states(), client_id),
            final(self).states() == old(self).states().insert(client_id, final(r)@),
    ;

    /// The balances of every client, each once, in no particular order.
    fn report_state(&self) -> (r: Vec<Account>)
        ensures
            exists|ids: Seq<ClientId>| lists_balances(self.states(), ids, r@),
    ;
}

} // verus!
