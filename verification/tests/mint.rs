use anchor_lang::prelude::Pubkey;
use soltarot_nft::{
    mint_tarot_nft, mint_tarot_nft_at, Address, Capability, Context, Creator, Environment, Ledger,
    MintError, MintEvent, MintTarotNft, TarotCard,
};
use std::str::FromStr;

fn mint_program() -> Pubkey {
    Pubkey::from_str("Fg6PaFpoGXkYsidMpWTK6W2BeZ7FEfcYkg476zPFsLnS").unwrap()
}

fn record_account(mint: [u8; 32]) -> Address {
    let (address, _) =
        Pubkey::find_program_address(&["tarot_reading".as_bytes(), &mint[..]], &mint_program());
    Address::new(address.to_bytes())
}

/// A context whose token identity and holding account are made from `seed`.
fn context(payer: u8, seed: u8) -> Context<MintTarotNft> {
    let mut mint = [seed; 32];
    mint[0] = 100;
    let mut holding = [seed; 32];
    holding[0] = 101;
    Context {
        program_id: Address::new(mint_program().to_bytes()),
        accounts: MintTarotNft {
            payer: Address::new([payer; 32]),
            mint: Address::new(mint),
            token_account: Address::new(holding),
            tarot_reading: record_account(mint),
            metadata: Address::new([201u8; 32]),
            token_program: Address::new([202u8; 32]),
            associated_token_program: Address::new([203u8; 32]),
            token_metadata_program: Address::new([204u8; 32]),
            system_program: Address::new([0u8; 32]),
            rent: Address::new([205u8; 32]),
        },
    }
}

fn env(clock: i64) -> Environment {
    Environment { clock, token_issuer: MintEvent::Completed, registrar: MintEvent::Completed }
}

fn tarot_card(name: &str, is_reversed: bool, position: &str) -> TarotCard {
    TarotCard { name: name.to_string(), is_reversed, position: position.to_string() }
}

fn two_cards() -> Vec<TarotCard> {
    vec![tarot_card("The Fool", false, "Past"), tarot_card("The Tower", true, "Present")]
}

fn mint_simple(
    ledger: &mut Ledger,
    env: &Environment,
    ctx: Context<MintTarotNft>,
    feedback: &str,
) -> Result<Vec<String>, MintError> {
    mint_tarot_nft(
        ledger,
        env,
        ctx,
        "Tarot Reading #001".to_string(),
        "three-card".to_string(),
        two_cards(),
        feedback.to_string(),
        "QmImage".to_string(),
        "QmMeta".to_string(),
    )
}

#[test]
fn minting_two_cards_stores_them_and_reports_two() {
    let mut ledger = Ledger::new();
    let ctx = context(1, 1);
    let lines = mint_tarot_nft(
        &mut ledger,
        &env(1_700_000_000),
        ctx,
        "Tarot Reading #001".to_string(),
        "three-card".to_string(),
        two_cards(),
        "change is coming".to_string(),
        "QmImage".to_string(),
        "QmMeta".to_string(),
    )
    .unwrap();
    let record = ledger.reading_of(&ctx.accounts.mint).unwrap();
    assert_eq!(record.cards.len(), 2);
    assert!(record.cards[1].is_reversed);
    assert_eq!(record.spread_type, "three-card");
    assert_eq!(lines.len(), 3);
    assert_eq!(lines[0], "타로 NFT 민팅 완료!");
    assert_eq!(lines[1], "스프레드: three-card");
    assert_eq!(lines[2], "카드 수: 2");
}

#[test]
fn record_holds_the_inputs_verbatim_and_in_order() {
    let mut ledger = Ledger::new();
    let ctx = context(1, 1);
    let cards =
        vec![tarot_card("Death", true, "Future"), tarot_card("The Fool", false, "Past"), tarot_card("", false, "")];
    mint_tarot_nft(
        &mut ledger,
        &env(5),
        ctx,
        "name".to_string(),
        " spread ".to_string(),
        cards.clone(),
        "해석\n둘째 줄".to_string(),
        "image".to_string(),
        "meta".to_string(),
    )
    .unwrap();
    let record = ledger.reading_of(&ctx.accounts.mint).unwrap();
    assert_eq!(record.cards, cards);
    assert_eq!(record.spread_type, " spread ");
    assert_eq!(record.ai_feedback, "해석\n둘째 줄");
    assert_eq!(record.image_cid, "image");
    assert_eq!(record.metadata_cid, "meta");
}

#[test]
fn record_timestamp_is_the_clock_of_the_execution() {
    for (seed, clock) in [(1u8, 0i64), (2, 1_700_000_000), (3, -1), (4, i64::MAX)] {
        let mut ledger = Ledger::new();
        let ctx = context(1, seed);
        mint_simple(&mut ledger, &env(clock), ctx, "f").unwrap();
        assert_eq!(ledger.reading_of(&ctx.accounts.mint).unwrap().reading_timestamp, clock);
    }
}

#[test]
fn record_names_requester_as_owner_and_new_identity_as_mint() {
    let mut ledger = Ledger::new();
    let ctx = context(9, 1);
    mint_simple(&mut ledger, &env(0), ctx, "f").unwrap();
    let record = ledger.reading_of(&ctx.accounts.mint).unwrap();
    assert_eq!(record.owner, ctx.accounts.payer);
    assert_eq!(record.mint, ctx.accounts.mint);
}

#[test]
fn record_is_stored_at_the_derived_address() {
    let mut ledger = Ledger::new();
    let ctx = context(1, 1);
    mint_simple(&mut ledger, &env(0), ctx, "f").unwrap();
    assert_eq!(ledger.record_address_for(&ctx.accounts.mint), Some(ctx.accounts.tarot_reading));
    assert_eq!(
        ledger.record_address_for(&ctx.accounts.mint),
        Some(record_account(ctx.accounts.mint.bytes))
    );
}

#[test]
fn supply_is_one_and_sits_in_the_holding_account() {
    let mut ledger = Ledger::new();
    let ctx = context(1, 1);
    assert_eq!(ledger.supply_of(&ctx.accounts.mint), 0);
    mint_simple(&mut ledger, &env(0), ctx, "f").unwrap();
    assert_eq!(ledger.supply_of(&ctx.accounts.mint), 1);
    assert_eq!(ledger.balance_of(&ctx.accounts.token_account, &ctx.accounts.mint), 1);
    assert_eq!(ledger.balance_of(&ctx.accounts.payer, &ctx.accounts.mint), 0);
    assert_eq!(ledger.balance_of(&ctx.accounts.tarot_reading, &ctx.accounts.mint), 0);
}

#[test]
fn descriptor_is_registered_for_the_token() {
    let mut ledger = Ledger::new();
    let ctx = context(1, 1);
    mint_simple(&mut ledger, &env(0), ctx, "f").unwrap();
    let d = ledger.descriptor_for(&ctx.accounts.mint).unwrap();
    assert_eq!(d.name, "Tarot Reading #001");
    assert_eq!(d.symbol, "SOLTAROT");
    assert_eq!(d.uri, "https://gateway.pinata.cloud/ipfs/QmMeta");
    assert_eq!(d.seller_fee_basis_points, 500);
    assert_eq!(
        d.creators,
        vec![Creator { address: ctx.accounts.payer, verified: false, share: 100 }]
    );
}

#[test]
fn two_mints_of_one_requester_get_distinct_identities_and_addresses() {
    let mut ledger = Ledger::new();
    let first = context(1, 1);
    let second = context(1, 2);
    mint_simple(&mut ledger, &env(10), first, "first").unwrap();
    mint_simple(&mut ledger, &env(20), second, "second").unwrap();
    assert_ne!(first.accounts.mint, second.accounts.mint);
    assert_ne!(first.accounts.tarot_reading, second.accounts.tarot_reading);
    assert_eq!(ledger.reading_of(&first.accounts.mint).unwrap().ai_feedback, "first");
    assert_eq!(ledger.reading_of(&second.accounts.mint).unwrap().ai_feedback, "second");
    assert_eq!(ledger.supply_of(&first.accounts.mint), 1);
    assert_eq!(ledger.supply_of(&second.accounts.mint), 1);
}

#[test]
fn reusing_a_token_identity_conflicts_and_keeps_the_earlier_reading() {
    let mut ledger = Ledger::new();
    let first = context(1, 1);
    mint_simple(&mut ledger, &env(10), first, "first").unwrap();
    let before = ledger.reading_of(&first.accounts.mint).unwrap().clone();
    let mut again = context(2, 1);
    again.accounts.token_account = Address::new([77u8; 32]);
    let result = mint_simple(&mut ledger, &env(20), again, "second");
    assert_eq!(result, Err(MintError::AccountStateConflict));
    assert_eq!(ledger.reading_of(&first.accounts.mint), Some(&before));
    assert_eq!(before.ai_feedback, "first");
    assert_eq!(before.reading_timestamp, 10);
    assert_eq!(ledger.supply_of(&first.accounts.mint), 1);
    assert_eq!(ledger.balance_of(&first.accounts.token_account, &first.accounts.mint), 1);
    assert_eq!(ledger.balance_of(&again.accounts.token_account, &first.accounts.mint), 0);
    assert!(!ledger.is_in_use(&again.accounts.token_account));
}

#[test]
fn reusing_a_holding_account_conflicts() {
    let mut ledger = Ledger::new();
    let first = context(1, 1);
    mint_simple(&mut ledger, &env(10), first, "first").unwrap();
    let mut second = context(1, 2);
    second.accounts.token_account = first.accounts.token_account;
    assert_eq!(
        mint_simple(&mut ledger, &env(20), second, "second"),
        Err(MintError::AccountStateConflict)
    );
    assert!(!ledger.is_in_use(&second.accounts.mint));
    assert_eq!(ledger.supply_of(&second.accounts.mint), 0);
}

#[test]
fn one_account_in_two_roles_conflicts() {
    let mut ledger = Ledger::new();
    let mut ctx = context(1, 1);
    ctx.accounts.token_account = ctx.accounts.mint;
    assert_eq!(mint_simple(&mut ledger, &env(0), ctx, "f"), Err(MintError::AccountStateConflict));
    let mut ctx = context(1, 1);
    ctx.accounts.payer = ctx.accounts.mint;
    assert_eq!(mint_simple(&mut ledger, &env(0), ctx, "f"), Err(MintError::AccountStateConflict));
    let mut ctx = context(1, 1);
    ctx.accounts.payer = ctx.accounts.token_account;
    assert_eq!(mint_simple(&mut ledger, &env(0), ctx, "f"), Err(MintError::AccountStateConflict));
    let mut ctx = context(1, 1);
    ctx.accounts.payer = ctx.accounts.tarot_reading;
    assert_eq!(mint_simple(&mut ledger, &env(0), ctx, "f"), Err(MintError::AccountStateConflict));
    assert!(!ledger.is_in_use(&context(1, 1).accounts.mint));
}

#[test]
fn a_token_identity_that_is_a_record_account_already_is_taken() {
    let mut ledger = Ledger::new();
    let first = context(1, 1);
    mint_simple(&mut ledger, &env(0), first, "f").unwrap();
    let mut second = context(1, 2);
    second.accounts.mint = first.accounts.tarot_reading;
    second.accounts.tarot_reading = record_account(second.accounts.mint.bytes);
    assert_eq!(
        mint_simple(&mut ledger, &env(0), second, "f"),
        Err(MintError::AccountStateConflict)
    );
}

#[test]
fn a_record_account_off_the_derived_address_is_refused() {
    let mut ledger = Ledger::new();
    let mut ctx = context(1, 1);
    ctx.accounts.tarot_reading = Address::new([55u8; 32]);
    assert_eq!(mint_simple(&mut ledger, &env(0), ctx, "f"), Err(MintError::RecordAddressMismatch));
    assert!(!ledger.is_in_use(&ctx.accounts.mint));
    assert_eq!(ledger.reading_of(&ctx.accounts.mint), None);
}

#[test]
fn a_record_account_derived_under_another_program_is_refused() {
    let mut ledger = Ledger::new();
    let mut ctx = context(1, 1);
    ctx.program_id = Address::new([5u8; 32]);
    assert_eq!(mint_simple(&mut ledger, &env(0), ctx, "f"), Err(MintError::RecordAddressMismatch));
}

#[test]
fn a_record_over_the_budget_overflows_and_mints_nothing() {
    let mut ledger = Ledger::new();
    let ctx = context(1, 1);
    let result = mint_simple(&mut ledger, &env(0), ctx, &"x".repeat(1200));
    assert_eq!(result, Err(MintError::StorageOverflow));
    assert_eq!(ledger.supply_of(&ctx.accounts.mint), 0);
    assert_eq!(ledger.balance_of(&ctx.accounts.token_account, &ctx.accounts.mint), 0);
    assert_eq!(ledger.reading_of(&ctx.accounts.mint), None);
    assert_eq!(ledger.descriptor_for(&ctx.accounts.mint), None);
    assert!(!ledger.is_in_use(&ctx.accounts.mint));
    assert!(!ledger.is_in_use(&ctx.accounts.token_account));
    assert!(!ledger.is_in_use(&ctx.accounts.tarot_reading));
}

#[test]
fn a_record_at_the_budget_is_minted_and_one_byte_more_is_not() {
    // fixed part 92, spread 10, cards 46, image 7, metadata 6: 161
    let mut ledger = Ledger::new();
    let at = context(1, 1);
    assert!(mint_simple(&mut ledger, &env(0), at, &"x".repeat(1200 - 161)).is_ok());
    let over = context(1, 2);
    assert_eq!(
        mint_simple(&mut ledger, &env(0), over, &"x".repeat(1200 - 161 + 1)),
        Err(MintError::StorageOverflow)
    );
}

#[test]
fn an_overflowing_record_is_reported_before_the_providers_are_asked() {
    let mut ledger = Ledger::new();
    let rejecting =
        Environment { clock: 0, token_issuer: MintEvent::Rejected, registrar: MintEvent::Rejected };
    assert_eq!(
        mint_simple(&mut ledger, &rejecting, context(1, 1), &"x".repeat(1200)),
        Err(MintError::StorageOverflow)
    );
}

#[test]
fn a_conflict_is_reported_before_an_overflow() {
    let mut ledger = Ledger::new();
    let first = context(1, 1);
    mint_simple(&mut ledger, &env(0), first, "f").unwrap();
    assert_eq!(
        mint_simple(&mut ledger, &env(0), first, &"x".repeat(1200)),
        Err(MintError::AccountStateConflict)
    );
}

#[test]
fn a_rejecting_token_provider_fails_the_mint_and_leaves_nothing() {
    let mut ledger = Ledger::new();
    let ctx = context(1, 1);
    let rejecting =
        Environment { clock: 0, token_issuer: MintEvent::Rejected, registrar: MintEvent::Completed };
    assert_eq!(
        mint_simple(&mut ledger, &rejecting, ctx, "f"),
        Err(MintError::CapabilityInvocationFailure(Capability::TokenIssuer))
    );
    assert_eq!(ledger.supply_of(&ctx.accounts.mint), 0);
    assert_eq!(ledger.reading_of(&ctx.accounts.mint), None);
    assert!(!ledger.is_in_use(&ctx.accounts.mint));
}

#[test]
fn a_rejecting_registrar_rolls_back_token_and_record() {
    let mut ledger = Ledger::new();
    let ctx = context(1, 1);
    let rejecting =
        Environment { clock: 0, token_issuer: MintEvent::Completed, registrar: MintEvent::Rejected };
    assert_eq!(
        mint_simple(&mut ledger, &rejecting, ctx, "f"),
        Err(MintError::CapabilityInvocationFailure(Capability::MetadataRegistrar))
    );
    assert_eq!(ledger.supply_of(&ctx.accounts.mint), 0);
    assert_eq!(ledger.balance_of(&ctx.accounts.token_account, &ctx.accounts.mint), 0);
    assert_eq!(ledger.reading_of(&ctx.accounts.mint), None);
    assert_eq!(ledger.descriptor_for(&ctx.accounts.mint), None);
    assert!(!ledger.is_in_use(&ctx.accounts.tarot_reading));
}

#[test]
fn a_failed_mint_can_be_retried_with_the_same_identities() {
    let mut ledger = Ledger::new();
    let ctx = context(1, 1);
    let rejecting =
        Environment { clock: 0, token_issuer: MintEvent::Completed, registrar: MintEvent::Rejected };
    assert!(mint_simple(&mut ledger, &rejecting, ctx, "f").is_err());
    assert!(mint_simple(&mut ledger, &env(3), ctx, "f").is_ok());
    assert_eq!(ledger.supply_of(&ctx.accounts.mint), 1);
}

#[test]
fn a_new_ledger_holds_nothing() {
    let ledger = Ledger::new();
    let ctx = context(1, 1);
    assert!(!ledger.is_in_use(&ctx.accounts.mint));
    assert_eq!(ledger.supply_of(&ctx.accounts.mint), 0);
    assert_eq!(ledger.balance_of(&ctx.accounts.token_account, &ctx.accounts.mint), 0);
    assert_eq!(ledger.reading_of(&ctx.accounts.mint), None);
    assert_eq!(ledger.record_address_for(&ctx.accounts.mint), None);
    assert_eq!(ledger.descriptor_for(&ctx.accounts.mint), None);
}

#[test]
fn every_account_of_a_minted_token_is_in_use() {
    let mut ledger = Ledger::new();
    let ctx = context(1, 1);
    mint_simple(&mut ledger, &env(0), ctx, "f").unwrap();
    assert!(ledger.is_in_use(&ctx.accounts.mint));
    assert!(ledger.is_in_use(&ctx.accounts.token_account));
    assert!(ledger.is_in_use(&ctx.accounts.tarot_reading));
    assert!(!ledger.is_in_use(&ctx.accounts.payer));
    assert!(!ledger.is_in_use(&ctx.accounts.metadata));
}

#[test]
fn later_mints_leave_earlier_readings_as_they_were() {
    let mut ledger = Ledger::new();
    let first = context(1, 1);
    mint_simple(&mut ledger, &env(10), first, "first").unwrap();
    let before = ledger.reading_of(&first.accounts.mint).unwrap().clone();
    for seed in 2u8..20 {
        mint_simple(&mut ledger, &env(seed as i64), context(seed, seed), "later").unwrap();
    }
    assert_eq!(ledger.reading_of(&first.accounts.mint), Some(&before));
    assert_eq!(ledger.supply_of(&first.accounts.mint), 1);
    assert_eq!(ledger.record_address_for(&first.accounts.mint), Some(first.accounts.tarot_reading));
}

#[test]
fn minting_at_a_given_derivation_takes_it_at_its_word() {
    let mut ledger = Ledger::new();
    let ctx = context(1, 1);
    let claimed = Address::new([66u8; 32]);
    let mut accounts = ctx.accounts;
    accounts.tarot_reading = claimed;
    let result = mint_tarot_nft_at(
        &mut ledger,
        &env(0),
        &accounts,
        Some((claimed, 255)),
        "n".to_string(),
        "s".to_string(),
        Vec::new(),
        "f".to_string(),
        "i".to_string(),
        "m".to_string(),
    );
    assert_eq!(
        result,
        Ok(vec![
            "타로 NFT 민팅 완료!".to_string(),
            "스프레드: s".to_string(),
            "카드 수: 0".to_string()
        ])
    );
    assert_eq!(ledger.record_address_for(&accounts.mint), Some(claimed));
}

#[test]
fn minting_at_a_failed_derivation_is_refused() {
    let mut ledger = Ledger::new();
    let ctx = context(1, 1);
    let result = mint_tarot_nft_at(
        &mut ledger,
        &env(0),
        &ctx.accounts,
        None,
        "n".to_string(),
        "s".to_string(),
        Vec::new(),
        "f".to_string(),
        "i".to_string(),
        "m".to_string(),
    );
    assert_eq!(result, Err(MintError::RecordAddressMismatch));
}

#[test]
fn of_two_requests_for_one_identity_the_first_to_run_wins() {
    let first = context(1, 1);
    let mut second = context(2, 1);
    second.accounts.token_account = Address::new([88u8; 32]);

    let mut ledger = Ledger::new();
    assert!(mint_simple(&mut ledger, &env(1), first, "first").is_ok());
    assert_eq!(
        mint_simple(&mut ledger, &env(2), second, "second"),
        Err(MintError::AccountStateConflict)
    );
    assert_eq!(ledger.reading_of(&first.accounts.mint).unwrap().ai_feedback, "first");

    let mut ledger = Ledger::new();
    assert!(mint_simple(&mut ledger, &env(2), second, "second").is_ok());
    assert_eq!(
        mint_simple(&mut ledger, &env(1), first, "first"),
        Err(MintError::AccountStateConflict)
    );
    assert_eq!(ledger.reading_of(&first.accounts.mint).unwrap().ai_feedback, "second");
}

#[test]
fn independent_requests_leave_the_same_ledger_in_either_order() {
    let first = context(1, 1);
    let second = context(2, 2);

    let mut one_way = Ledger::new();
    mint_simple(&mut one_way, &env(1), first, "first").unwrap();
    mint_simple(&mut one_way, &env(2), second, "second").unwrap();

    let mut other_way = Ledger::new();
    mint_simple(&mut other_way, &env(2), second, "second").unwrap();
    mint_simple(&mut other_way, &env(1), first, "first").unwrap();

    for ctx in [first, second] {
        let mint = &ctx.accounts.mint;
        assert_eq!(one_way.reading_of(mint), other_way.reading_of(mint));
        assert!(one_way.reading_of(mint).is_some());
        assert_eq!(one_way.descriptor_for(mint), other_way.descriptor_for(mint));
        assert_eq!(one_way.record_address_for(mint), other_way.record_address_for(mint));
        assert_eq!(one_way.supply_of(mint), 1);
        assert_eq!(other_way.supply_of(mint), 1);
        assert_eq!(
            one_way.balance_of(&ctx.accounts.token_account, mint),
            other_way.balance_of(&ctx.accounts.token_account, mint)
        );
    }
    assert_eq!(one_way.reading_of(&first.accounts.mint).unwrap().reading_timestamp, 1);
    assert_eq!(one_way.reading_of(&second.accounts.mint).unwrap().reading_timestamp, 2);
}
