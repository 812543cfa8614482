use anchor_lang::AnchorSerialize;
use soltarot_nft::{
    Address, TarotCard, TarotReading, DISCRIMINATOR_LEN, RECORD_BUDGET, RECORD_SPACE,
};

fn a_card(name: &str, is_reversed: bool, position: &str) -> TarotCard {
    TarotCard { name: name.to_string(), is_reversed, position: position.to_string() }
}

fn reading(cards: Vec<TarotCard>, feedback: &str) -> TarotReading {
    TarotReading::new(
        "three-card".to_string(),
        cards,
        feedback.to_string(),
        1_700_000_000,
        "QmImage".to_string(),
        "QmMeta".to_string(),
        Address::new([1u8; 32]),
        Address::new([2u8; 32]),
    )
}

fn stored_bytes(reading: &TarotReading) -> usize {
    let cards: Vec<(String, bool, String)> = reading
        .cards
        .iter()
        .map(|c| (c.name.clone(), c.is_reversed, c.position.clone()))
        .collect();
    let fields = (
        reading.spread_type.clone(),
        cards,
        reading.ai_feedback.clone(),
        reading.reading_timestamp,
        reading.image_cid.clone(),
        reading.metadata_cid.clone(),
        reading.owner.bytes,
        reading.mint.bytes,
    );
    fields.try_to_vec().unwrap().len()
}

#[test]
fn record_space_is_discriminator_and_budget() {
    assert_eq!(DISCRIMINATOR_LEN, 8);
    assert_eq!(RECORD_BUDGET, 1200);
    assert_eq!(RECORD_SPACE, 8 + 1200);
}

#[test]
fn new_keeps_every_field() {
    let cards = vec![a_card("The Fool", false, "Past"), a_card("The Tower", true, "Present")];
    let reading = TarotReading::new(
        "three-card".to_string(),
        cards.clone(),
        "change is coming".to_string(),
        -5,
        "QmImage".to_string(),
        "QmMeta".to_string(),
        Address::new([1u8; 32]),
        Address::new([2u8; 32]),
    );
    assert_eq!(reading.spread_type, "three-card");
    assert_eq!(reading.cards, cards);
    assert_eq!(reading.ai_feedback, "change is coming");
    assert_eq!(reading.reading_timestamp, -5);
    assert_eq!(reading.image_cid, "QmImage");
    assert_eq!(reading.metadata_cid, "QmMeta");
    assert_eq!(reading.owner, Address::new([1u8; 32]));
    assert_eq!(reading.mint, Address::new([2u8; 32]));
}

#[test]
fn card_length_counts_prefixes_flag_and_bytes() {
    // 4 + 8 for the name, 1 for the flag, 4 + 4 for the position
    assert_eq!(a_card("The Fool", false, "Past").encoded_len_within(100), Some(21));
    assert_eq!(a_card("", true, "").encoded_len_within(100), Some(9));
}

#[test]
fn card_length_stops_at_the_limit() {
    let c = a_card("The Fool", false, "Past");
    assert_eq!(c.encoded_len_within(21), Some(21));
    assert_eq!(c.encoded_len_within(20), None);
    assert_eq!(c.encoded_len_within(0), None);
}

#[test]
fn card_length_counts_utf8_bytes_not_characters() {
    // "바보" is two characters in six bytes
    assert_eq!(a_card("바보", false, "é").encoded_len_within(100), Some(4 + 6 + 1 + 4 + 2));
}

#[test]
fn empty_reading_takes_the_fixed_part_only() {
    let empty = TarotReading::new(
        String::new(),
        Vec::new(),
        String::new(),
        0,
        String::new(),
        String::new(),
        Address::new([0u8; 32]),
        Address::new([0u8; 32]),
    );
    // four text prefixes, the card count, the timestamp, two identities
    assert_eq!(empty.encoded_len_within(RECORD_BUDGET), Some(16 + 4 + 8 + 64));
    assert_eq!(empty.encoded_len_within(92), Some(92));
    assert_eq!(empty.encoded_len_within(91), None);
    assert_eq!(stored_bytes(&empty), 92);
}

#[test]
fn reading_length_is_the_length_of_its_stored_form() {
    let r = reading(
        vec![a_card("The Fool", false, "Past"), a_card("The Tower", true, "Present")],
        "변화가 다가옵니다",
    );
    let expected = stored_bytes(&r);
    assert_eq!(r.encoded_len_within(RECORD_BUDGET), Some(expected));
    // 14 + (4 + 21 + 25) + (4 + 25) + 8 + 11 + 10 + 64
    assert_eq!(expected, 186);
}

#[test]
fn reading_fits_up_to_the_budget_exactly() {
    let base = reading(Vec::new(), "").encoded_len_within(RECORD_BUDGET).unwrap();
    let at_limit = reading(Vec::new(), &"a".repeat(RECORD_BUDGET - base));
    assert_eq!(at_limit.encoded_len_within(RECORD_BUDGET), Some(RECORD_BUDGET));
    assert!(at_limit.fits_budget());
    assert_eq!(stored_bytes(&at_limit), RECORD_BUDGET);
    let over = reading(Vec::new(), &"a".repeat(RECORD_BUDGET - base + 1));
    assert_eq!(over.encoded_len_within(RECORD_BUDGET), None);
    assert!(!over.fits_budget());
    assert_eq!(stored_bytes(&over), RECORD_BUDGET + 1);
}

#[test]
fn many_cards_overflow_the_budget() {
    let cards: Vec<TarotCard> = (0..60).map(|_| a_card("The Fool", false, "Past")).collect();
    let r = reading(cards, "");
    assert!(!r.fits_budget());
    assert_eq!(r.encoded_len_within(RECORD_BUDGET), None);
    assert_eq!(r.encoded_len_within(2000), Some(stored_bytes(&r)));
}

#[test]
fn card_list_length_grows_by_each_card() {
    let none = reading(Vec::new(), "").encoded_len_within(RECORD_BUDGET).unwrap();
    let one = reading(vec![a_card("The Fool", false, "Past")], "")
        .encoded_len_within(RECORD_BUDGET)
        .unwrap();
    let two = reading(vec![a_card("The Fool", false, "Past"), a_card("The Tower", true, "Present")], "")
        .encoded_len_within(RECORD_BUDGET)
        .unwrap();
    assert_eq!(one - none, 21);
    assert_eq!(two - one, 25);
}

#[test]
fn text_takes_one_to_four_bytes_for_each_character() {
    // one, two, three and four bytes
    for (text, bytes) in [("a", 1usize), ("é", 2), ("타", 3), ("🃏", 4)] {
        assert_eq!(text.chars().count(), 1);
        assert_eq!(a_card(text, false, "").encoded_len_within(100), Some(4 + bytes + 1 + 4));
    }
}
