//! The ownership ledger.

use std::collections::HashMap;
use vstd::prelude::*;
use crate::model::{
    above, above_others, appended, held_at, holds, law_append_holds,
    law_append_keeps_well_formed, law_removal_keeps_well_formed, law_restore_undoes_removal,
    law_transfer_keeps_well_formed, law_transfer_moves, may_miss, moved, removed_at, restored_at,
    retired, total, unheld, vacant, well_formed, Ownership,
};
use crate::registry::{
    burn_exchange, mint_exchange, transfer_exchange, Reply, Trait,
};
use crate::search::locate;
use crate::types::{AccountId, Error, Event, TokenId, TOKEN_CLASS};

verus! {

broadcast use vstd::std_specs::hash::group_hash_axioms;

/// The registry's answer that lies behind a result of the ledger: none
/// behind `NotOwned`, which is returned without asking.
pub open spec fn answer_behind<E>(r: Result<Event, Error<E>>) -> Option<Reply<E>> {
    match r {
        Ok(Event::MintedToken(_, token, _)) => Some(Reply::Issued(token)),
        Ok(_) => Some(Reply::Done),
        Err(Error::RegistryFailure(e)) => Some(Reply::Refused(e)),
        Err(Error::NotOwned) => None,
    }
}

/// The ledger: for each account, the tokens it holds, in order.
pub struct Module {
    tokens: HashMap<AccountId, Vec<TokenId>>,
}

impl View for Module {
    type V = Ownership;

    /// The index as a total map: an account without an entry holds nothing.
    closed spec fn view(&self) -> Ownership {
        Map::total(
            |a: AccountId|
                if self.tokens@.contains_key(a) {
                    self.tokens@[a]@
                } else {
                    Seq::<TokenId>::empty()
                },
        )
    }
}

impl Module {
    /// A ledger in which nobody holds anything.
    pub fn new() -> (ledger: Module)
        ensures
            ledger@ == vacant(),
    {
        let ledger = Module { tokens: HashMap::new() };
        proof {
            assert(ledger@ =~= vacant());
        }
        ledger
    }

    /// The view of a ledger maps every account.
    pub proof fn lemma_view_total(&self)
        ensures
            total(self@),
    {
    }

    /// The tokens of `owner`, in ledger order; empty for an unknown account.
    pub fn tokens_of(&self, owner: AccountId) -> (held: Vec<TokenId>)
        ensures
            held@ == self@[owner],
    {
        let mut held: Vec<TokenId> = Vec::new();
        match self.tokens.get(&owner) {
            Some(stored) => {
                let mut i: usize = 0;
                while i < stored.len()
                    invariant
                        i <= stored@.len(),
                        held@ == stored@.take(i as int),
                    decreases stored@.len() - i,
                {
                    held.push(stored[i]);
                    proof {
                        assert(held@ =~= stored@.take(i + 1));
                    }
                    i = i + 1;
                }
                proof {
                    assert(stored@.take(i as int) =~= stored@);
                }
            },
            None => {},
        }
        held
    }

    /// Replaces what `owner` holds by `tokens`.
    pub fn put(&mut self, owner: AccountId, tokens: Vec<TokenId>)
        ensures
            final(self)@ == old(self)@.insert(owner, tokens@),
    {
        self.tokens.insert(owner, tokens);
        proof {
            assert(self@ =~= old(self)@.insert(owner, tokens@));
        }
    }

    /// Adds `token` at the end of what `owner` holds.
    pub fn deposit(&mut self, owner: AccountId, token: TokenId)
        ensures
            final(self)@ == appended(old(self)@, owner, token),
    {
        let mut held: Vec<TokenId> = match self.tokens.remove(&owner) {
            Some(stored) => stored,
            None => Vec::new(),
        };
        held.push(token);
        self.tokens.insert(owner, held);
        proof {
            assert(self@ =~= appended(old(self)@, owner, token));
        }
    }

    /// Looks `token` up among what `owner` holds and, if it is found, takes
    /// it out and returns the position it had.
    ///
    /// The lookup relies on the owner's sequence being ascending; on a
    /// sequence that is not, it may miss a token that is there, but a token
    /// it finds is always the one asked for.
    pub fn withdraw(&mut self, owner: AccountId, token: TokenId) -> (taken: Option<usize>)
        ensures
            match taken {
                Some(i) => {
                    &&& held_at(old(self)@, owner, token, i as int)
                    &&& final(self)@ == removed_at(old(self)@, owner, i as int)
                },
                None => {
                    &&& may_miss(old(self)@, owner, token)
                    &&& final(self)@ == old(self)@
                },
            },
    {
        let found: Option<usize> = match self.tokens.get(&owner) {
            Some(stored) => locate(stored, token),
            None => None,
        };
        match found {
            Some(i) => {
                let mut held: Vec<TokenId> = match self.tokens.remove(&owner) {
                    Some(stored) => stored,
                    None => Vec::new(),
                };
                held.remove(i);
                self.tokens.insert(owner, held);
                proof {
                    assert(self@ =~= removed_at(old(self)@, owner, i as int));
                }
                Some(i)
            },
            None => None,
        }
    }

    /// Puts `token` back at position `index` of what `owner` holds.
    pub fn restore(&mut self, owner: AccountId, token: TokenId, index: usize)
        requires
            index <= old(self)@[owner].len(),
        ensures
            final(self)@ == restored_at(old(self)@, owner, index as int, token),
    {
        let mut held: Vec<TokenId> = match self.tokens.remove(&owner) {
            Some(stored) => stored,
            None => Vec::new(),
        };
        held.insert(index, token);
        self.tokens.insert(owner, held);
        proof {
            assert(self@ =~= restored_at(old(self)@, owner, index as int, token));
        }
    }

    /// Concludes a mint once the registry has answered.
    ///
    /// If the registry issued a token, the token is added at the end of what
    /// `from` holds and the event is returned. If it refused, the ledger is
    /// left as it was and the registry's error is handed on.
    pub fn settle_mint<E>(
        &mut self,
        from: AccountId,
        metadata: Vec<u8>,
        outcome: Result<TokenId, E>,
    ) -> (r: Result<Event, Error<E>>)
        ensures
            match outcome {
                Ok(token) => {
                    &&& r == Ok::<Event, Error<E>>(Event::MintedToken(from, token, metadata))
                    &&& final(self)@ == appended(old(self)@, from, token)
                    &&& holds(final(self)@, from, token)
                },
                Err(e) => {
                    &&& r == Err::<Event, Error<E>>(Error::RegistryFailure(e))
                    &&& final(self)@ == old(self)@
                },
            },
    {
        match outcome {
            Ok(token) => {
                proof {
                    law_append_holds(self@, from, token);
                }
                self.deposit(from, token);
                Ok(Event::MintedToken(from, token, metadata))
            },
            Err(e) => Err(Error::RegistryFailure(e)),
        }
    }

    /// Concludes a transfer once the registry has answered. `index` is the
    /// position from which `token` was withdrawn from `from`.
    ///
    /// If the registry accepted, the token is added at the end of what `to`
    /// holds and the event is returned. If it refused, the token goes back
    /// to `from` at `index` and the registry's error is handed on.
    pub fn settle_transfer<E>(
        &mut self,
        from: AccountId,
        to: AccountId,
        token: TokenId,
        index: usize,
        outcome: Result<(), E>,
    ) -> (r: Result<Event, Error<E>>)
        requires
            index <= old(self)@[from].len(),
        ensures
            match outcome {
                Ok(_) => {
                    &&& r == Ok::<Event, Error<E>>(Event::TransferredToken(from, to, token))
                    &&& final(self)@ == appended(old(self)@, to, token)
                },
                Err(e) => {
                    &&& r == Err::<Event, Error<E>>(Error::RegistryFailure(e))
                    &&& final(self)@ == restored_at(old(self)@, from, index as int, token)
                },
            },
    {
        match outcome {
            Ok(_) => {
                self.deposit(to, token);
                Ok(Event::TransferredToken(from, to, token))
            },
            Err(e) => {
                self.restore(from, token, index);
                Err(Error::RegistryFailure(e))
            },
        }
    }

    /// Concludes a burn once the registry has answered. `index` is the
    /// position from which `token` was withdrawn from `from`.
    ///
    /// If the registry accepted, the ledger stays without the token and the
    /// event is returned. If it refused, the token goes back to `from` at
    /// `index` and the registry's error is handed on.
    pub fn settle_burn<E>(
        &mut self,
        from: AccountId,
        token: TokenId,
        index: usize,
        outcome: Result<(), E>,
    ) -> (r: Result<Event, Error<E>>)
        requires
            index <= old(self)@[from].len(),
        ensures
            match outcome {
                Ok(_) => {
                    &&& r == Ok::<Event, Error<E>>(Event::BurnedToken(from, token))
                    &&& final(self)@ == old(self)@
                },
                Err(e) => {
                    &&& r == Err::<Event, Error<E>>(Error::RegistryFailure(e))
                    &&& final(self)@ == restored_at(old(self)@, from, index as int, token)
                },
            },
    {
        match outcome {
            Ok(_) => Ok(Event::BurnedToken(from, token)),
            Err(e) => {
                self.restore(from, token, index);
                Err(Error::RegistryFailure(e))
            },
        }
    }

    /// Issues a new token to `from`.
    ///
    /// The registry is asked once, for a token of the fixed class owned by
    /// `from` with this metadata and data. Whatever it
    /// answers, the outcome is one of two: the ledger gained the issued token
    /// at the end of what `from` holds and the event names it, or the ledger
    /// is unchanged and the registry's error is returned. The index stays
    /// well formed if the issued token is new and greater than what `from`
    /// already holds.
    pub fn mint_nft<R: Trait>(
        &mut self,
        registry: &mut R,
        from: AccountId,
        metadata: Vec<u8>,
        data: R::TokenData,
    ) -> (r: Result<Event, Error<R::RegistryError>>)
        ensures
            match answer_behind(r) {
                Some(reply) => final(registry).exchanges() == old(registry).exchanges().push(
                    mint_exchange(from, metadata@, data, reply),
                ),
                None => false,
            },
            match r {
                Ok(Event::MintedToken(owner, token, cid)) => {
                    &&& owner == from
                    &&& cid == metadata
                    &&& final(self)@ == appended(old(self)@, from, token)
                    &&& holds(final(self)@, from, token)
                    &&& well_formed(old(self)@) && unheld(old(self)@, token) && above(
                        old(self)@[from],
                        token,
                    ) ==> well_formed(final(self)@)
                },
                Ok(_) => false,
                Err(Error::RegistryFailure(_)) => final(self)@ == old(self)@,
                Err(Error::NotOwned) => false,
            },
    {
        let outcome = registry.registry_mint(from, TOKEN_CLASS, &metadata, data);
        proof {
            if let Ok(token) = outcome {
                if well_formed(self@) && unheld(self@, token) && above(self@[from], token) {
                    law_append_keeps_well_formed(self@, from, token);
                }
            }
        }
        self.settle_mint(from, metadata, outcome)
    }

    /// Moves `token` from `from` to `to`.
    ///
    /// A token that `from` does not hold is refused with `NotOwned` and the
    /// registry is left untouched. Otherwise the token is taken out, the
    /// registry is asked once, for exactly this transfer, and either the
    /// token arrives at the end of what
    /// `to` holds, or it is put back where it was and the registry's error
    /// is returned. `NotOwned` is returned only if the lookup may miss.
    pub fn transfer_nft<R: Trait>(
        &mut self,
        registry: &mut R,
        from: AccountId,
        to: AccountId,
        token: TokenId,
    ) -> (r: Result<Event, Error<R::RegistryError>>)
        ensures
            !holds(old(self)@, from, token) ==> r == Err::<Event, Error<R::RegistryError>>(
                Error::NotOwned,
            ),
            match answer_behind(r) {
                Some(reply) => final(registry).exchanges() == old(registry).exchanges().push(
                    transfer_exchange(from, to, token, reply),
                ),
                None => *final(registry) == *old(registry),
            },
            match r {
                Ok(event) => {
                    &&& event == Event::TransferredToken(from, to, token)
                    &&& moved(old(self)@, final(self)@, from, to, token)
                    &&& well_formed(old(self)@) ==> holds(final(self)@, to, token)
                    &&& well_formed(old(self)@) ==> forall|a: AccountId|
                        a != to ==> !holds(final(self)@, a, token)
                    &&& well_formed(old(self)@) && above_others(old(self)@[to], token)
                        ==> well_formed(final(self)@)
                },
                Err(Error::RegistryFailure(_)) => {
                    &&& holds(old(self)@, from, token)
                    &&& final(self)@ == old(self)@
                },
                Err(Error::NotOwned) => {
                    &&& may_miss(old(self)@, from, token)
                    &&& final(self)@ == old(self)@
                },
            },
    {
        match self.withdraw(from, token) {
            None => Err(Error::NotOwned),
            Some(index) => {
                proof {
                    self.lemma_view_total();
                    law_restore_undoes_removal(old(self)@, from, index as int);
                }
                let outcome = registry.registry_transfer(from, to, TOKEN_CLASS, token);
                let r = self.settle_transfer(from, to, token, index, outcome);
                proof {
                    if r is Ok && well_formed(old(self)@) {
                        law_transfer_moves(old(self)@, from, to, index as int);
                        if above_others(old(self)@[to], token) {
                            law_transfer_keeps_well_formed(old(self)@, from, to, index as int);
                        }
                    }
                }
                r
            },
        }
    }

    /// Retires `token`, held by `from`, for good.
    ///
    /// A token that `from` does not hold is refused with `NotOwned` and the
    /// registry is left untouched. Otherwise the token is taken out, the
    /// registry is asked once, for exactly this burn, and either the ledger
    /// stays without the token, or
    /// the token is put back where it was and the registry's error is
    /// returned. `NotOwned` is returned only if the lookup may miss.
    pub fn burn_nft<R: Trait>(
        &mut self,
        registry: &mut R,
        from: AccountId,
        token: TokenId,
    ) -> (r: Result<Event, Error<R::RegistryError>>)
        ensures
            !holds(old(self)@, from, token) ==> r == Err::<Event, Error<R::RegistryError>>(
                Error::NotOwned,
            ),
            match answer_behind(r) {
                Some(reply) => final(registry).exchanges() == old(registry).exchanges().push(
                    burn_exchange(from, token, reply),
                ),
                None => *final(registry) == *old(registry),
            },
            match r {
                Ok(event) => {
                    &&& event == Event::BurnedToken(from, token)
                    &&& retired(old(self)@, final(self)@, from, token)
                    &&& well_formed(old(self)@) ==> well_formed(final(self)@)
                    &&& well_formed(old(self)@) ==> unheld(final(self)@, token)
                },
                Err(Error::RegistryFailure(_)) => {
                    &&& holds(old(self)@, from, token)
                    &&& final(self)@ == old(self)@
                },
                Err(Error::NotOwned) => {
                    &&& may_miss(old(self)@, from, token)
                    &&& final(self)@ == old(self)@
                },
            },
    {
        match self.withdraw(from, token) {
            None => Err(Error::NotOwned),
            Some(index) => {
                proof {
                    self.lemma_view_total();
                    law_restore_undoes_removal(old(self)@, from, index as int);
                }
                let outcome = registry.registry_burn(from, TOKEN_CLASS, token);
                let r = self.settle_burn(from, token, index, outcome);
                proof {
                    if r is Ok && well_formed(old(self)@) {
                        law_removal_keeps_well_formed(old(self)@, from, index as int);
                    }
                }
                r
            },
        }
    }
}

} // verus!
