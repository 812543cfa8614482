//! The reading record and its stored layout.
//!
//! A record is stored after an 8-byte discriminator. Each text is stored as a
//! 4-byte length followed by its UTF-8 bytes, the card list as a 4-byte count
//! followed by the cards, a flag as one byte, the timestamp as 8 bytes and
//! each identity as 32 bytes.

use crate::address::Address;
use vstd::prelude::*;

verus! {

/// Bytes taken by the discriminator in front of a stored record.
pub const DISCRIMINATOR_LEN: usize = 8;

/// Bytes reserved for the fields of a stored record.
pub const RECORD_BUDGET: usize = 1200;

/// Bytes reserved for a record account: discriminator and fields.
pub const RECORD_SPACE: usize = DISCRIMINATOR_LEN + RECORD_BUDGET;

/// One drawn card: its name, its orientation and its role in the spread.
#[derive(Clone, Debug, PartialEq, Eq)]
pub struct TarotCard {
    pub name: String,
    pub is_reversed: bool,
    pub position: String,
}

/// What a card is, as mathematical values.
pub struct TarotCardView {
    pub name: Seq<char>,
    pub is_reversed: bool,
    pub position: Seq<char>,
}

impl View for TarotCard {
    type V = TarotCardView;

    open spec fn view(&self) -> TarotCardView {
        TarotCardView { name: self.name@, is_reversed: self.is_reversed, position: self.position@ }
    }
}

/// The record of one reading session, stored once per minted token.
#[derive(Clone, Debug, PartialEq, Eq)]
pub struct TarotReading {
    pub spread_type: String,
    pub cards: Vec<TarotCard>,
    pub ai_feedback: String,
    pub reading_timestamp: i64,
    pub image_cid: String,
    pub metadata_cid: String,
    pub owner: Address,
    pub mint: Address,
}

/// What a reading is, as mathematical values.
pub struct TarotReadingView {
    pub spread_type: Seq<char>,
    pub cards: Seq<TarotCardView>,
    pub ai_feedback: Seq<char>,
    pub reading_timestamp: int,
    pub image_cid: Seq<char>,
    pub metadata_cid: Seq<char>,
    pub owner: Seq<u8>,
    pub mint: Seq<u8>,
}

/// The cards of a list, each taken as its view, in the same order.
pub open spec fn cards_view(cards: Seq<TarotCard>) -> Seq<TarotCardView> {
    Seq::new(cards.len(), |i: int| cards[i]@)
}

impl View for TarotReading {
    type V = TarotReadingView;

    open spec fn view(&self) -> TarotReadingView {
        TarotReadingView {
            spread_type: self.spread_type@,
            cards: cards_view(self.cards@),
            ai_feedback: self.ai_feedback@,
            reading_timestamp: self.reading_timestamp as int,
            image_cid: self.image_cid@,
            metadata_cid: self.metadata_cid@,
            owner: self.owner@,
            mint: self.mint@,
        }
    }
}

/// Stored size of a text: a 4-byte length and the UTF-8 bytes.
pub open spec fn text_len(text: Seq<char>) -> nat {
    4 + vstd::utf8::encode_utf8(text).len()
}

/// Stored size of a card: name, orientation flag, position.
pub open spec fn card_len(card: TarotCardView) -> nat {
    text_len(card.name) + 1 + text_len(card.position)
}

/// Stored size of the cards of a list, without the count in front.
pub open spec fn cards_payload_len(cards: Seq<TarotCardView>) -> nat
    decreases cards.len(),
{
    if cards.len() == 0 {
        0
    } else {
        cards_payload_len(cards.drop_last()) + card_len(cards.last())
    }
}

/// Stored size of a card list: a 4-byte count and the cards.
pub open spec fn cards_len(cards: Seq<TarotCardView>) -> nat {
    4 + cards_payload_len(cards)
}

/// Stored size of the fields of a reading, without the discriminator.
pub open spec fn record_len(reading: TarotReadingView) -> nat {
    text_len(reading.spread_type) + cards_len(reading.cards) + text_len(reading.ai_feedback) + 8
        + text_len(reading.image_cid) + text_len(reading.metadata_cid) + 32 + 32
}

/// Whether the fields of a reading fit the bytes reserved for them.
pub open spec fn fits_budget(reading: TarotReadingView) -> bool {
    record_len(reading) <= RECORD_BUDGET
}

/// A text is stored in at least one byte and at most four bytes for each of
/// its characters, after its length; a text of ASCII characters in exactly
/// one byte for each.
pub proof fn lemma_text_len_bounds(text: Seq<char>)
    ensures
        4 + text.len() <= text_len(text) <= 4 + 4 * text.len(),
        vstd::utf8::is_ascii_chars(text) ==> text_len(text) == 4 + text.len(),
    decreases text.len(),
{
    if text.len() > 0 {
        lemma_text_len_bounds(text.drop_first());
        if vstd::utf8::is_ascii_chars(text) {
            assert(vstd::utf8::is_ascii_chars(text.drop_first()));
            vstd::utf8::is_ascii_chars_encode_utf8(text);
        }
    }
}

/// A prefix of a card list is stored in no more bytes than the list.
pub proof fn lemma_cards_payload_len_monotonic(cards: Seq<TarotCardView>, n: int)
    requires
        0 <= n <= cards.len(),
    ensures
        cards_payload_len(cards.take(n)) <= cards_payload_len(cards),
    decreases cards.len(),
{
    if n == cards.len() {
        assert(cards.take(n) =~= cards);
    } else {
        lemma_cards_payload_len_monotonic(cards.drop_last(), n);
        assert(cards.drop_last().take(n) =~= cards.take(n));
    }
}

/// `total + n`, or `None` where that passes `limit`.
fn add_within(total: usize, n: usize, limit: usize) -> (r: Option<usize>)
    requires
        total <= limit,
    ensures
        match r {
            Some(sum) => sum == total + n && sum <= limit,
            None => total + n > limit,
        },
{
    if n > limit - total {
        None
    } else {
        Some(total + n)
    }
}

/// `total` and the stored size of `text`, or `None` where that passes `limit`.
fn add_text_within(total: usize, text: &String, limit: usize) -> (r: Option<usize>)
    requires
        total <= limit,
    ensures
        match r {
            Some(sum) => sum == total + text_len(text@) && sum <= limit,
            None => total + text_len(text@) > limit,
        },
{
    let bytes = text.as_str().as_bytes().len();
    match add_within(total, 4, limit) {
        Some(with_prefix) => add_within(with_prefix, bytes, limit),
        None => None,
    }
}

impl TarotCard {
    /// `total` and the stored size of this card, or `None` where that
    /// passes `limit`.
    fn add_len_within(&self, total: usize, limit: usize) -> (r: Option<usize>)
        requires
            total <= limit,
        ensures
            match r {
                Some(sum) => sum == total + card_len(self@) && sum <= limit,
                None => total + card_len(self@) > limit,
            },
    {
        let with_name = match add_text_within(total, &self.name, limit) {
            Some(sum) => sum,
            None => { return None; },
        };
        let with_flag = match add_within(with_name, 1, limit) {
            Some(sum) => sum,
            None => { return None; },
        };
        add_text_within(with_flag, &self.position, limit)
    }

    /// The stored size of this card where it is at most `limit`.
    pub fn encoded_len_within(&self, limit: usize) -> (r: Option<usize>)
        ensures
            match r {
                Some(len) => len == card_len(self@) && len <= limit,
                None => card_len(self@) > limit,
            },
    {
        self.add_len_within(0, limit)
    }
}

/// `total` and the stored size of the card list, or `None` where that
/// passes `limit`.
fn add_cards_within(total: usize, cards: &Vec<TarotCard>, limit: usize) -> (r: Option<usize>)
    requires
        total <= limit,
    ensures
        match r {
            Some(sum) => sum == total + cards_len(cards_view(cards@)) && sum <= limit,
            None => total + cards_len(cards_view(cards@)) > limit,
        },
{
    let ghost all = cards_view(cards@);
    let mut sum = match add_within(total, 4, limit) {
        Some(sum) => sum,
        None => { return None; },
    };
    let mut i: usize = 0;
    assert(all.take(0) =~= Seq::<TarotCardView>::empty());
    while i < cards.len()
        invariant
            i <= cards.len(),
            all == cards_view(cards@),
            sum <= limit,
            sum == total + 4 + cards_payload_len(all.take(i as int)),
        decreases cards.len() - i,
    {
        proof {
            assert(all.take(i + 1).drop_last() =~= all.take(i as int));
            assert(all.take(i + 1).last() == cards[i as int]@);
            lemma_cards_payload_len_monotonic(all, i + 1);
        }
        sum = match cards[i].add_len_within(sum, limit) {
            Some(next) => next,
            None => { return None; },
        };
        i += 1;
    }
    assert(all.take(i as int) =~= all);
    Some(sum)
}

impl TarotReading {
    /// Fills a record: every field is the argument of the same name.
    pub fn new(
        spread_type: String,
        cards: Vec<TarotCard>,
        ai_feedback: String,
        reading_timestamp: i64,
        image_cid: String,
        metadata_cid: String,
        owner: Address,
        mint: Address,
    ) -> (reading: TarotReading)
        ensures
            reading.spread_type == spread_type,
            reading.cards == cards,
            reading.ai_feedback == ai_feedback,
            reading.reading_timestamp == reading_timestamp,
            reading.image_cid == image_cid,
            reading.metadata_cid == metadata_cid,
            reading.owner == owner,
            reading.mint == mint,
    {
        TarotReading {
            spread_type,
            cards,
            ai_feedback,
            reading_timestamp,
            image_cid,
            metadata_cid,
            owner,
            mint,
        }
    }

    /// The stored size of the fields of this reading where it is at most
    /// `limit`.
    pub fn encoded_len_within(&self, limit: usize) -> (r: Option<usize>)
        ensures
            match r {
                Some(len) => len == record_len(self@) && len <= limit,
                None => record_len(self@) > limit,
            },
    {
        let sum = match add_text_within(0, &self.spread_type, limit) {
            Some(sum) => sum,
            None => { return None; },
        };
        let sum = match add_cards_within(sum, &self.cards, limit) {
            Some(sum) => sum,
            None => { return None; },
        };
        let sum = match add_text_within(sum, &self.ai_feedback, limit) {
            Some(sum) => sum,
            None => { return None; },
        };
        let sum = match add_within(sum, 8, limit) {
            Some(sum) => sum,
            None => { return None; },
        };
        let sum = match add_text_within(sum, &self.image_cid, limit) {
            Some(sum) => sum,
            None => { return None; },
        };
        let sum = match add_text_within(sum, &self.metadata_cid, limit) {
            Some(sum) => sum,
            None => { return None; },
        };
        add_within(sum, 64, limit)
    }

    /// Whether the fields of this reading fit the bytes reserved for them.
    pub fn fits_budget(&self) -> (r: bool)
        ensures
            r == fits_budget(self@),
    {
        self.encoded_len_within(RECORD_BUDGET).is_some()
    }
}

} // verus!
