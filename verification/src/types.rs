//! Plain data shared by the ledger and its collaborators.

use vstd::prelude::*;

verus! {

/// Identity of an account. Used only as a key.
pub type AccountId = u64;

/// Identifier of a token, issued by the registry.
pub type TokenId = u64;

/// Identifier of a token class in the registry.
pub type ClassId = u32;

/// The one class in which every token of this ledger is kept.
pub const TOKEN_CLASS: ClassId = 0;

/// Application payload attached to a token class.
#[derive(Clone, Debug, PartialEq, Eq)]
pub struct ClassData {
    pub data: Vec<u8>,
}

/// A payload for tokens: what a registry may be set up to carry with each.
#[derive(Clone, Copy, Debug, PartialEq, Eq, Structural)]
pub struct TokenData {
    pub data: u32,
}

/// What the ledger announces after a successful operation.
#[derive(Clone, Debug, PartialEq, Eq)]
pub enum Event {
    /// `MintedToken(owner, token, metadata)`
    MintedToken(AccountId, TokenId, Vec<u8>),
    /// `BurnedToken(owner, token)`
    BurnedToken(AccountId, TokenId),
    /// `TransferredToken(from, to, token)`
    TransferredToken(AccountId, AccountId, TokenId),
}

/// Why an operation left the ledger as it was. `E` is the registry's own
/// error type, which the ledger hands on untouched.
#[derive(Clone, Debug, PartialEq, Eq)]
pub enum Error<E> {
    /// The ledger has no record of the caller holding the token.
    NotOwned,
    /// The registry refused the change.
    RegistryFailure(E),
}

} // verus!
