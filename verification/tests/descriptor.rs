use soltarot_nft::{
    build_descriptor, issue_request, registration_request, Address, Creator, MintTarotNft,
    CREATOR_SHARE, ISSUED_UNITS, SELLER_FEE_BASIS_POINTS,
};

fn sample_accounts() -> MintTarotNft {
    MintTarotNft {
        payer: Address::new([1u8; 32]),
        mint: Address::new([2u8; 32]),
        token_account: Address::new([3u8; 32]),
        tarot_reading: Address::new([4u8; 32]),
        metadata: Address::new([5u8; 32]),
        token_program: Address::new([6u8; 32]),
        associated_token_program: Address::new([7u8; 32]),
        token_metadata_program: Address::new([8u8; 32]),
        system_program: Address::new([9u8; 32]),
        rent: Address::new([10u8; 32]),
    }
}

#[test]
fn descriptor_has_fixed_symbol_fee_and_gateway_uri() {
    let creator = Address::new([1u8; 32]);
    let d = build_descriptor("Tarot Reading #001".to_string(), &"QmMeta".to_string(), creator);
    assert_eq!(d.name, "Tarot Reading #001");
    assert_eq!(d.symbol, "SOLTAROT");
    assert_eq!(d.uri, "https://gateway.pinata.cloud/ipfs/QmMeta");
    assert_eq!(d.seller_fee_basis_points, 500);
    assert_eq!(SELLER_FEE_BASIS_POINTS, 500);
}

#[test]
fn descriptor_names_the_requester_as_sole_unverified_creator() {
    let creator = Address::new([1u8; 32]);
    let d = build_descriptor("n".to_string(), &"c".to_string(), creator);
    assert_eq!(d.creators, vec![Creator { address: creator, verified: false, share: 100 }]);
    assert_eq!(CREATOR_SHARE, 100);
}

#[test]
fn descriptor_uri_of_an_empty_reference_is_the_gateway_prefix() {
    let d = build_descriptor(String::new(), &String::new(), Address::new([0u8; 32]));
    assert_eq!(d.uri, "https://gateway.pinata.cloud/ipfs/");
    assert_eq!(d.name, "");
}

#[test]
fn issue_request_mints_one_unit_to_the_holding_account() {
    let a = sample_accounts();
    let request = issue_request(&a);
    assert_eq!(request.amount, 1);
    assert_eq!(ISSUED_UNITS, 1);
    assert_eq!(request.mint, a.mint);
    assert_eq!(request.to, a.token_account);
    assert_eq!(request.authority, a.payer);
    assert_eq!(request.token_program, a.token_program);
}

#[test]
fn registration_makes_the_requester_every_authority() {
    let a = sample_accounts();
    let d = build_descriptor("n".to_string(), &"c".to_string(), a.payer);
    let request = registration_request(&a, d.clone());
    assert_eq!(request.registrar, a.token_metadata_program);
    assert_eq!(request.metadata, a.metadata);
    assert_eq!(request.mint, a.mint);
    assert_eq!(request.mint_authority, a.payer);
    assert_eq!(request.update_authority, a.payer);
    assert_eq!(request.payer, a.payer);
    assert_eq!(request.system_program, a.system_program);
    assert_eq!(request.rent, a.rent);
    assert_eq!(request.descriptor, d);
    assert!(request.is_mutable);
    assert!(request.update_authority_is_signer);
}
