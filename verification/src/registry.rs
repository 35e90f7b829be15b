//! The token registry, as the ledger sees it.

use vstd::prelude::*;
use crate::types::{AccountId, ClassId, TokenId, TOKEN_CLASS};

verus! {

/// What the registry can be asked to do. `D` is the payload that a token
/// carries.
pub enum Request<D> {
    /// Create a token of `class` for `owner`.
    Mint { owner: AccountId, class: ClassId, metadata: Seq<u8>, data: D },
    /// Move `token` of `class` from `from` to `to`.
    Transfer { from: AccountId, to: AccountId, class: ClassId, token: TokenId },
    /// Retire `token` of `class`, held by `owner`.
    Burn { owner: AccountId, class: ClassId, token: TokenId },
}

/// What the registry answered. `E` is its own error type.
pub enum Reply<E> {
    /// A mint was accepted and this token was issued.
    Issued(TokenId),
    /// A transfer or a burn was accepted.
    Done,
    /// The request was refused.
    Refused(E),
}

/// One request together with its answer.
pub struct Exchange<D, E> {
    pub request: Request<D>,
    pub reply: Reply<E>,
}

/// The record of a registry's exchanges, oldest first.
pub type Exchanges<D, E> = Seq<Exchange<D, E>>;

/// The answer to a mint as a reply.
pub open spec fn issue_reply<E>(answer: Result<TokenId, E>) -> Reply<E> {
    match answer {
        Ok(token) => Reply::Issued(token),
        Err(e) => Reply::Refused(e),
    }
}

/// The answer to a transfer or a burn as a reply.
pub open spec fn plain_reply<E>(answer: Result<(), E>) -> Reply<E> {
    match answer {
        Ok(_) => Reply::Done,
        Err(e) => Reply::Refused(e),
    }
}

/// A mint for `owner` in the fixed class, and its answer.
pub open spec fn mint_exchange<D, E>(
    owner: AccountId,
    metadata: Seq<u8>,
    data: D,
    reply: Reply<E>,
) -> Exchange<D, E> {
    Exchange { request: Request::Mint { owner, class: TOKEN_CLASS, metadata, data }, reply }
}

/// A transfer of `token` in the fixed class, and its answer.
pub open spec fn transfer_exchange<D, E>(
    from: AccountId,
    to: AccountId,
    token: TokenId,
    reply: Reply<E>,
) -> Exchange<D, E> {
    Exchange { request: Request::Transfer { from, to, class: TOKEN_CLASS, token }, reply }
}

/// A burn of `token` in the fixed class, and its answer.
pub open spec fn burn_exchange<D, E>(owner: AccountId, token: TokenId, reply: Reply<E>) -> Exchange<
    D,
    E,
> {
    Exchange { request: Request::Burn { owner, class: TOKEN_CLASS, token }, reply }
}

/// The collaborator that owns canonical token existence. Whoever embeds the
/// ledger supplies an implementation.
///
/// The ledger assumes nothing about what an implementation answers and is
/// verified for every answer. The one thing assumed of an implementation is
/// bookkeeping: `exchanges` is the record of the calls made so far, and each
/// call adds to it the request as it was made and the answer as it was
/// given. The record exists in specifications only. In return an
/// implementation may rely on being asked for the one fixed class only.
pub trait Trait {
    /// The payload that a token carries.
    type TokenData;

    /// The registry's own error type.
    type RegistryError;

    /// The requests made of this registry so far, each with its answer,
    /// oldest first.
    ///
    /// The record is never computed. An implementation written without
    /// specifications gives this function a body that does not return.
    spec fn exchanges(&self) -> Exchanges<Self::TokenData, Self::RegistryError>;

    /// Creates a token of `class` for `owner` and returns its identifier.
    fn registry_mint(
        &mut self,
        owner: AccountId,
        class: ClassId,
        metadata: &Vec<u8>,
        data: Self::TokenData,
    ) -> (answer: Result<TokenId, Self::RegistryError>)
        requires
            class == TOKEN_CLASS,
        ensures
            final(self).exchanges() == old(self).exchanges().push(
                mint_exchange(owner, metadata@, data, issue_reply(answer)),
            ),
    ;

    /// Moves `token` of `class` from `from` to `to`.
    fn registry_transfer(
        &mut self,
        from: AccountId,
        to: AccountId,
        class: ClassId,
        token: TokenId,
    ) -> (answer: Result<(), Self::RegistryError>)
        requires
            class == TOKEN_CLASS,
        ensures
            final(self).exchanges() == old(self).exchanges().push(
                transfer_exchange(from, to, token, plain_reply(answer)),
            ),
    ;

    /// Retires `token` of `class`, held by `owner`, for good.
    fn registry_burn(
        &mut self,
        owner: AccountId,
        class: ClassId,
        token: TokenId,
    ) -> (answer: Result<(), Self::RegistryError>)
        requires
            class == TOKEN_CLASS,
        ensures
            final(self).exchanges() == old(self).exchanges().push(
                burn_exchange(owner, token, plain_reply(answer)),
            ),
    ;
}

} // verus!
