//! An ownership ledger for non-fungible tokens.
//!
//! The ledger records, for every account, the ordered sequence of token
//! identifiers that the account holds. Tokens themselves live in a separate
//! registry; the ledger follows the registry and commits a change to its own
//! index only once the registry has accepted it.

pub mod ledger;
pub mod model;
pub mod registry;
pub mod search;
pub mod types;

pub use ledger::Module;
pub use registry::Trait;
pub use types::{AccountId, ClassData, ClassId, Error, Event, TokenData, TokenId, TOKEN_CLASS};
