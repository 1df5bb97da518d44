//! Role checks and one-time role initialization over the ownership
//! registries.

use vstd::prelude::*;

use crate::error::ContractError;
use crate::state::{Ownership, OwnershipView};

verus! {

/// Whether `who` currently holds the role recorded in `o`.
pub open spec fn is_role_owner(o: OwnershipView, who: Seq<char>) -> bool {
    match o.owner {
        Some(x) => x == who,
        None => false,
    }
}

/// Succeeds exactly when the sender is the collection's minter.
pub fn assert_minter(minter: &Ownership, sender: &String) -> (r: Result<(), ContractError>)
    ensures
        r == if is_role_owner(minter@, sender@) {
            Ok::<(), ContractError>(())
        } else {
            Err::<(), ContractError>(ContractError::NotMinter)
        },
{
    match &minter.owner {
        Some(o) => {
            if *o == *sender {
                Ok(())
            } else {
                Err(ContractError::NotMinter)
            }
        },
        None => Err(ContractError::NotMinter),
    }
}

/// Succeeds exactly when the sender is the collection's creator.
pub fn assert_creator(creator: &Ownership, sender: &String) -> (r: Result<(), ContractError>)
    ensures
        r == if is_role_owner(creator@, sender@) {
            Ok::<(), ContractError>(())
        } else {
            Err::<(), ContractError>(ContractError::NotCreator)
        },
{
    match &creator.owner {
        Some(o) => {
            if *o == *sender {
                Ok(())
            } else {
                Err(ContractError::NotCreator)
            }
        },
        None => Err(ContractError::NotCreator),
    }
}

/// Sets the minter role exactly once; a second initialization fails with
/// `AlreadyExists` and changes nothing.
pub fn initialize_minter(minter: &mut Ownership, owner: &String) -> (r: Result<
    Ownership,
    ContractError,
>)
    ensures
        old(minter)@.owner is Some ==> r == Err::<Ownership, ContractError>(
            ContractError::AlreadyExists,
        ) && *final(minter) == *old(minter),
        old(minter)@.owner is None ==> final(minter)@ == (OwnershipView {
            owner: Some(owner@),
            pending_owner: None,
        }) && (r matches Ok(o) && o@ == final(minter)@),
{
    initialize_role(minter, owner)
}

/// Sets the creator role exactly once; a second initialization fails with
/// `AlreadyExists` and changes nothing.
pub fn initialize_creator(creator: &mut Ownership, owner: &String) -> (r: Result<
    Ownership,
    ContractError,
>)
    ensures
        old(creator)@.owner is Some ==> r == Err::<Ownership, ContractError>(
            ContractError::AlreadyExists,
        ) && *final(creator) == *old(creator),
        old(creator)@.owner is None ==> final(creator)@ == (OwnershipView {
            owner: Some(owner@),
            pending_owner: None,
        }) && (r matches Ok(o) && o@ == final(creator)@),
{
    initialize_role(creator, owner)
}

/// Shared body of the two role initializations.
fn initialize_role(role: &mut Ownership, owner: &String) -> (r: Result<Ownership, ContractError>)
    ensures
        old(role)@.owner is Some ==> r == Err::<Ownership, ContractError>(
            ContractError::AlreadyExists,
        ) && *final(role) == *old(role),
        old(role)@.owner is None ==> final(role)@ == (OwnershipView {
            owner: Some(owner@),
            pending_owner: None,
        }) && (r matches Ok(o) && o@ == final(role)@),
{
    if role.owner.is_some() {
        return Err(ContractError::AlreadyExists);
    }
    role.owner = Some(owner.clone());
    role.pending_owner = None;
    Ok(role.clone())
}

} // verus!
