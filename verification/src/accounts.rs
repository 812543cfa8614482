//! The identities that a call is made with.

use crate::address::Address;
use vstd::prelude::*;

verus! {

/// What a call runs under: the identity of the program that executes it and
/// the accounts that the caller supplied.
#[derive(Clone, Copy, Debug, PartialEq, Eq)]
pub struct Context<T> {
    pub program_id: Address,
    pub accounts: T,
}

/// The accounts of a mint.
#[derive(Clone, Copy, Debug, PartialEq, Eq)]
pub struct MintTarotNft {
    /// The requester: pays, signs, and becomes owner and creator.
    pub payer: Address,
    /// The new token identity.
    pub mint: Address,
    /// The new holding account of the requester for the token.
    pub token_account: Address,
    /// The record account, at the address derived from the token identity.
    pub tarot_reading: Address,
    /// The account in which the metadata registrar keeps the descriptor.
    pub metadata: Address,
    pub token_program: Address,
    pub associated_token_program: Address,
    pub token_metadata_program: Address,
    pub system_program: Address,
    pub rent: Address,
}

/// The accounts of the initialization routine: none.
#[derive(Clone, Copy, Debug, PartialEq, Eq)]
pub struct Initialize {}

} // verus!
