//! Verified core of a tarot-reading token mint.
//!
//! One operation issues a single non-fungible token for a reading session and
//! attaches the reading to it through a record stored at an address derived
//! from the token identity.
//!
//! - `address`: account identities, and the record address of a token.
//! - `reading`: the record, and how many bytes it takes when stored.
//! - `issuer`, `descriptor`: what is asked of the token provider and of the
//!   metadata registrar.
//! - `transaction`: the plan of a mint and the order of its steps, for a
//!   caller that carries the steps out.
//! - `ledger`: an account store on which a whole mint runs at once, with
//!   what holds of every such store.
//! - `confirmation`, `greeting`: the texts that are emitted.

pub mod accounts;
pub mod address;
pub mod confirmation;
pub mod descriptor;
pub mod greeting;
pub mod issuer;
pub mod ledger;
pub mod reading;
pub mod transaction;

pub use accounts::{Context, Initialize, MintTarotNft};
pub use address::{record_address, Address, NAMESPACE_TAG};
pub use confirmation::{confirmation, decimal_text};
pub use descriptor::{
    build_descriptor, registration_request, Creator, MetadataDescriptor, MetadataRegistration,
    CREATOR_SHARE, SELLER_FEE_BASIS_POINTS,
};
pub use greeting::{greeting, initialize};
pub use issuer::{issue_request, MintTo, ISSUED_UNITS, MINT_DECIMALS};
pub use ledger::{mint_tarot_nft, mint_tarot_nft_at, Environment, Ledger};
pub use reading::{TarotCard, TarotReading, DISCRIMINATOR_LEN, RECORD_BUDGET, RECORD_SPACE};
pub use transaction::{
    first_action, match_record_account, plan_mint, step, Capability, MintAction, MintError,
    MintEvent, MintPlan, MintState,
};
