//! Error taxonomy of the contract core.

use vstd::prelude::*;

verus! {

/// Every way an operation of this crate can fail.
///
/// Role- and owner-gated mutations distinguish which authority was missing
/// (`NotMinter`, `NotCreator`, `NotOwner`). Lookups of absent identifiers
/// report `NotFound`, identifier collisions on mint report `AlreadyExists`,
/// and a tier update on a token whose lifecycle state is terminal reports
/// `WrongState`. `InvalidInput` is reserved for a malformed identity
/// rejected by the embedding's address validator before an operation is
/// invoked.
#[derive(Clone, Copy, Debug, PartialEq, Eq, Structural)]
pub enum ContractError {
    /// The caller is not the collection's minter.
    NotMinter,
    /// The caller is not the collection's creator.
    NotCreator,
    /// The caller does not own the addressed token.
    NotOwner,
    /// No token record exists under the given identifier.
    NotFound,
    /// A record under the given identifier already exists, or a role was
    /// initialized twice.
    AlreadyExists,
    /// The token's lifecycle state forbids the requested mutation.
    WrongState,
    /// An identity failed the embedding's address validation.
    InvalidInput,
}

} // verus!
