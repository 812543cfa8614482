//! The descriptor under which a minted token is shown by wallets and
//! marketplaces, and the request that registers it.

use crate::accounts::MintTarotNft;
use crate::address::Address;
use vstd::prelude::*;
use vstd::string::StringExecFns;

verus! {

/// Seller fee declared for every reading token, in basis points.
pub const SELLER_FEE_BASIS_POINTS: u16 = 500;

/// Share of the revenue attributed to the sole creator, in percent.
pub const CREATOR_SHARE: u8 = 100;

/// The symbol that every reading token carries.
pub open spec fn symbol_text() -> Seq<char> {
    "SOLTAROT"@
}

/// Where the pinned metadata document of content reference `cid` is read.
pub open spec fn metadata_uri(cid: Seq<char>) -> Seq<char> {
    "https://gateway.pinata.cloud/ipfs/"@ + cid
}

/// One attribution of a token to a creator.
#[derive(Clone, Copy, Debug, PartialEq, Eq)]
pub struct Creator {
    pub address: Address,
    pub verified: bool,
    pub share: u8,
}

/// Display name, symbol, metadata location, fee and attribution of a token.
/// It names no collection and grants no uses.
#[derive(Clone, Debug, PartialEq, Eq)]
pub struct MetadataDescriptor {
    pub name: String,
    pub symbol: String,
    pub uri: String,
    pub seller_fee_basis_points: u16,
    pub creators: Vec<Creator>,
}

/// What a descriptor is, as mathematical values.
pub struct MetadataDescriptorView {
    pub name: Seq<char>,
    pub symbol: Seq<char>,
    pub uri: Seq<char>,
    pub seller_fee_basis_points: u16,
    pub creators: Seq<Creator>,
}

impl View for MetadataDescriptor {
    type V = MetadataDescriptorView;

    open spec fn view(&self) -> MetadataDescriptorView {
        MetadataDescriptorView {
            name: self.name@,
            symbol: self.symbol@,
            uri: self.uri@,
            seller_fee_basis_points: self.seller_fee_basis_points,
            creators: self.creators@,
        }
    }
}

/// The descriptor of a reading token named `name`, whose metadata document
/// is pinned under `metadata_cid`, created by `creator`.
pub open spec fn descriptor_of(
    name: Seq<char>,
    metadata_cid: Seq<char>,
    creator: Address,
) -> MetadataDescriptorView {
    MetadataDescriptorView {
        name,
        symbol: symbol_text(),
        uri: metadata_uri(metadata_cid),
        seller_fee_basis_points: SELLER_FEE_BASIS_POINTS,
        creators: seq![Creator { address: creator, verified: false, share: CREATOR_SHARE }],
    }
}

/// Builds the descriptor of a reading token: the given name, the fixed
/// symbol, the gateway location of the metadata document, the fixed fee, and
/// `creator` as the only creator, unverified, with the whole share.
pub fn build_descriptor(name: String, metadata_cid: &String, creator: Address) -> (descriptor:
    MetadataDescriptor)
    ensures
        descriptor@ == descriptor_of(name@, metadata_cid@, creator),
{
    let symbol = String::from_str("SOLTAROT");
    let uri = String::from_str("https://gateway.pinata.cloud/ipfs/").concat(metadata_cid.as_str());
    let mut creators: Vec<Creator> = Vec::new();
    creators.push(Creator { address: creator, verified: false, share: CREATOR_SHARE });
    assert(creators@ =~= seq![Creator { address: creator, verified: false, share: CREATOR_SHARE }]);
    MetadataDescriptor {
        name,
        symbol,
        uri,
        seller_fee_basis_points: SELLER_FEE_BASIS_POINTS,
        creators,
    }
}

/// The request handed to the metadata registrar.
#[derive(Clone, Debug, PartialEq, Eq)]
pub struct MetadataRegistration {
    /// The provider that registers the descriptor.
    pub registrar: Address,
    /// The account in which the registrar keeps the descriptor.
    pub metadata: Address,
    pub mint: Address,
    pub mint_authority: Address,
    pub update_authority: Address,
    pub payer: Address,
    pub system_program: Address,
    pub rent: Address,
    pub descriptor: MetadataDescriptor,
    /// Whether the update authority may change the descriptor later.
    pub is_mutable: bool,
    pub update_authority_is_signer: bool,
}

/// What a registration request is, as mathematical values.
pub struct MetadataRegistrationView {
    pub registrar: Address,
    pub metadata: Address,
    pub mint: Address,
    pub mint_authority: Address,
    pub update_authority: Address,
    pub payer: Address,
    pub system_program: Address,
    pub rent: Address,
    pub descriptor: MetadataDescriptorView,
    pub is_mutable: bool,
    pub update_authority_is_signer: bool,
}

impl View for MetadataRegistration {
    type V = MetadataRegistrationView;

    open spec fn view(&self) -> MetadataRegistrationView {
        MetadataRegistrationView {
            registrar: self.registrar,
            metadata: self.metadata,
            mint: self.mint,
            mint_authority: self.mint_authority,
            update_authority: self.update_authority,
            payer: self.payer,
            system_program: self.system_program,
            rent: self.rent,
            descriptor: self.descriptor@,
            is_mutable: self.is_mutable,
            update_authority_is_signer: self.update_authority_is_signer,
        }
    }
}

/// The request that attaches `descriptor` to the token of `accounts`: the
/// requester is mint authority, update authority and payer, signs as update
/// authority, and may change the descriptor later.
pub open spec fn registration_of(
    accounts: MintTarotNft,
    descriptor: MetadataDescriptorView,
) -> MetadataRegistrationView {
    MetadataRegistrationView {
        registrar: accounts.token_metadata_program,
        metadata: accounts.metadata,
        mint: accounts.mint,
        mint_authority: accounts.payer,
        update_authority: accounts.payer,
        payer: accounts.payer,
        system_program: accounts.system_program,
        rent: accounts.rent,
        descriptor,
        is_mutable: true,
        update_authority_is_signer: true,
    }
}

/// Builds the request that attaches `descriptor` to the token of `accounts`.
pub fn registration_request(accounts: &MintTarotNft, descriptor: MetadataDescriptor) -> (request:
    MetadataRegistration)
    ensures
        request@ == registration_of(*accounts, descriptor@),
{
    MetadataRegistration {
        registrar: accounts.token_metadata_program,
        metadata: accounts.metadata,
        mint: accounts.mint,
        mint_authority: accounts.payer,
        update_authority: accounts.payer,
        payer: accounts.payer,
        system_program: accounts.system_program,
        rent: accounts.rent,
        descriptor,
        is_mutable: true,
        update_authority_is_signer: true,
    }
}

} // verus!
