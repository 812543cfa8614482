//! The request that issues the single unit of a new token.

use crate::accounts::MintTarotNft;
use crate::address::Address;
use vstd::prelude::*;

verus! {

/// Units issued of every reading token.
pub const ISSUED_UNITS: u64 = 1;

/// Decimal places of every reading token: a unit cannot be divided.
pub const MINT_DECIMALS: u8 = 0;

/// The request handed to the token provider: mint `amount` units of `mint`
/// into `to`, authorised by `authority`.
#[derive(Clone, Copy, Debug, PartialEq, Eq)]
pub struct MintTo {
    pub token_program: Address,
    pub mint: Address,
    pub to: Address,
    pub authority: Address,
    pub amount: u64,
}

/// The request that issues the token of `accounts`: one unit of the new
/// identity into the holding account of the requester, who authorises it.
pub open spec fn issue_of(accounts: MintTarotNft) -> MintTo {
    MintTo {
        token_program: accounts.token_program,
        mint: accounts.mint,
        to: accounts.token_account,
        authority: accounts.payer,
        amount: ISSUED_UNITS,
    }
}

/// Builds the request that issues the token of `accounts`.
pub fn issue_request(accounts: &MintTarotNft) -> (request: MintTo)
    ensures
        request == issue_of(*accounts),
        request.amount == 1,
{
    MintTo {
        token_program: accounts.token_program,
        mint: accounts.mint,
        to: accounts.token_account,
        authority: accounts.payer,
        amount: ISSUED_UNITS,
    }
}

} // verus!
