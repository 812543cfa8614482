//! The initialization routine: it changes nothing and greets with the
//! identity of the program.

use crate::accounts::{Context, Initialize};
use vstd::prelude::*;
use vstd::string::StringExecFns;

verus! {

/// The text under which an identity is shown: its bytes in base 58.
pub uninterp spec fn base58_text(bytes: Seq<u8>) -> Seq<char>;

/// Calls the `Debug` formatting of `Pubkey` of `anchor_lang` (re-exported
/// from `solana_program`), which writes the 32 bytes in base 58 with the
/// Bitcoin alphabet: a function of the bytes alone, named `base58_text` here.
#[verifier::external_body]
fn address_text(address: &[u8; 32]) -> (text: String)
    ensures
        text@ == base58_text(address@),
{
    format!("{:?}", anchor_lang::prelude::Pubkey::new_from_array(*address))
}

/// The greeting of the program that is shown as `program`.
pub open spec fn greeting_of(program: Seq<char>) -> Seq<char> {
    "Greetings from: "@ + program
}

/// Writes the greeting of the program that is shown as `program`.
pub fn greeting(program: &str) -> (line: String)
    ensures
        line@ == greeting_of(program@),
{
    String::from_str("Greetings from: ").concat(program)
}

/// Initializes: nothing is created or changed. Returns the line that greets
/// with the identity of the executing program.
pub fn initialize(ctx: Context<Initialize>) -> (line: String)
    ensures
        line@ == greeting_of(base58_text(ctx.program_id@)),
{
    let program = address_text(&ctx.program_id.bytes);
    greeting(program.as_str())
}

} // verus!
