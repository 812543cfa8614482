//! The text that confirms a mint.

use crate::reading::{TarotReading, TarotReadingView};
use vstd::prelude::*;
use vstd::string::StringExecFns;

verus! {

/// The character of a decimal digit.
pub open spec fn digit_char(digit: nat) -> char {
    if digit == 0 {
        '0'
    } else if digit == 1 {
        '1'
    } else if digit == 2 {
        '2'
    } else if digit == 3 {
        '3'
    } else if digit == 4 {
        '4'
    } else if digit == 5 {
        '5'
    } else if digit == 6 {
        '6'
    } else if digit == 7 {
        '7'
    } else if digit == 8 {
        '8'
    } else {
        '9'
    }
}

/// A number written in decimal, without leading zeros.
pub open spec fn decimal(n: nat) -> Seq<char>
    decreases n,
{
    if n < 10 {
        seq![digit_char(n)]
    } else {
        decimal(n / 10).push(digit_char(n % 10))
    }
}

fn digit_text(digit: usize) -> (text: &'static str)
    requires
        digit < 10,
    ensures
        text@ == seq![digit_char(digit as nat)],
{
    proof {
        reveal_strlit("0");
        reveal_strlit("1");
        reveal_strlit("2");
        reveal_strlit("3");
        reveal_strlit("4");
        reveal_strlit("5");
        reveal_strlit("6");
        reveal_strlit("7");
        reveal_strlit("8");
        reveal_strlit("9");
    }
    let text = if digit == 0 {
        "0"
    } else if digit == 1 {
        "1"
    } else if digit == 2 {
        "2"
    } else if digit == 3 {
        "3"
    } else if digit == 4 {
        "4"
    } else if digit == 5 {
        "5"
    } else if digit == 6 {
        "6"
    } else if digit == 7 {
        "7"
    } else if digit == 8 {
        "8"
    } else {
        "9"
    };
    assert(text@ =~= seq![digit_char(digit as nat)]);
    text
}

/// Writes `n` in decimal.
pub fn decimal_text(n: usize) -> (text: String)
    ensures
        text@ == decimal(n as nat),
    decreases n,
{
    if n < 10 {
        String::from_str(digit_text(n))
    } else {
        let mut text = decimal_text(n / 10);
        text.append(digit_text(n % 10));
        assert(text@ =~= decimal(n as nat));
        text
    }
}

/// The lines that confirm the mint of `reading`: that it is done, the spread
/// type, and the number of cards.
pub open spec fn confirmation_of(reading: TarotReadingView) -> Seq<Seq<char>> {
    seq![
        "타로 NFT 민팅 완료!"@,
        "스프레드: "@ + reading.spread_type,
        "카드 수: "@ + decimal(reading.cards.len()),
    ]
}

/// Writes the lines that confirm the mint of `reading`.
pub fn confirmation(reading: &TarotReading) -> (lines: Vec<String>)
    ensures
        lines.deep_view() == confirmation_of(reading@),
{
    let done = String::from_str("타로 NFT 민팅 완료!");
    let spread = String::from_str("스프레드: ").concat(reading.spread_type.as_str());
    let count = decimal_text(reading.cards.len());
    let cards = String::from_str("카드 수: ").concat(count.as_str());
    let mut lines: Vec<String> = Vec::new();
    lines.push(done);
    lines.push(spread);
    lines.push(cards);
    assert(lines.deep_view() =~= confirmation_of(reading@));
    lines
}

} // verus!
