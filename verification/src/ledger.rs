//! The tokens that were minted and what is attached to each: an account
//! store on which a mint runs as one transaction.

use crate::accounts::{Context, MintTarotNft};
use crate::address::{derived_view, record_address, record_address_of, Address};
use crate::confirmation::confirmation_of;
use crate::descriptor::{descriptor_of, MetadataDescriptor, MetadataDescriptorView};
use crate::issuer::ISSUED_UNITS;
use crate::reading::{cards_view, fits_budget, TarotCard, TarotReading, TarotReadingView};
use crate::transaction::{
    lemma_all_or_nothing, match_record_account, plan_mint, record_account_matches, record_of,
    rejected_within, run, step, Capability, MintAction, MintArgs, MintError, MintEvent, MintPlan,
    MintState,
};
use vstd::prelude::*;

verus! {

/// Everything that is attached to one minted token.
pub struct MintedToken {
    /// Units in existence.
    pub supply: nat,
    /// The account that holds them.
    pub holding_account: Seq<u8>,
    /// The account that stores the reading.
    pub record_address: Seq<u8>,
    pub reading: TarotReadingView,
    pub descriptor: MetadataDescriptorView,
}

/// What a ledger holds: the minted tokens, by token identity.
pub struct LedgerView {
    pub tokens: Map<Seq<u8>, MintedToken>,
}

impl LedgerView {
    pub open spec fn empty() -> LedgerView {
        LedgerView { tokens: Map::empty() }
    }

    /// Units of `mint` in existence.
    pub open spec fn supply(self, mint: Seq<u8>) -> nat {
        if self.tokens.dom().contains(mint) {
            self.tokens[mint].supply
        } else {
            0
        }
    }

    /// Units of `mint` that account `holder` holds.
    pub open spec fn balance(self, holder: Seq<u8>, mint: Seq<u8>) -> nat {
        if self.tokens.dom().contains(mint) && self.tokens[mint].holding_account == holder {
            self.tokens[mint].supply
        } else {
            0
        }
    }

    /// The reading attached to `mint`.
    pub open spec fn reading_of(self, mint: Seq<u8>) -> Option<TarotReadingView> {
        if self.tokens.dom().contains(mint) {
            Some(self.tokens[mint].reading)
        } else {
            None
        }
    }

    /// The account that stores the reading attached to `mint`.
    pub open spec fn record_address_for(self, mint: Seq<u8>) -> Option<Seq<u8>> {
        if self.tokens.dom().contains(mint) {
            Some(self.tokens[mint].record_address)
        } else {
            None
        }
    }

    /// The descriptor registered for `mint`.
    pub open spec fn descriptor_for(self, mint: Seq<u8>) -> Option<MetadataDescriptorView> {
        if self.tokens.dom().contains(mint) {
            Some(self.tokens[mint].descriptor)
        } else {
            None
        }
    }

    /// Whether `mint` uses `account`: as its identity, its holding account
    /// or its record account.
    pub open spec fn uses(self, mint: Seq<u8>, account: Seq<u8>) -> bool {
        &&& self.tokens.dom().contains(mint)
        &&& (account == mint || account == self.tokens[mint].holding_account || account
            == self.tokens[mint].record_address)
    }

    /// Whether some minted token uses `account`.
    pub open spec fn in_use(self, account: Seq<u8>) -> bool {
        exists|mint: Seq<u8>| self.uses(mint, account)
    }

    /// The ledger with one more token.
    pub open spec fn with_token(self, mint: Seq<u8>, token: MintedToken) -> LedgerView {
        LedgerView { tokens: self.tokens.insert(mint, token) }
    }

    /// Whether everything in `earlier` is in this ledger, unchanged.
    pub open spec fn includes(self, earlier: LedgerView) -> bool {
        forall|mint: Seq<u8>| #[trigger]
            earlier.tokens.dom().contains(mint) ==> self.tokens.dom().contains(mint)
                && self.tokens[mint] == earlier.tokens[mint]
    }

    /// What holds of every ledger: each token exists once and is attached to
    /// one reading, which names it and fits its account; and no account
    /// serves twice, neither for two tokens nor in two roles.
    pub open spec fn wf(self) -> bool {
        &&& forall|mint: Seq<u8>| #[trigger]
            self.tokens.dom().contains(mint) ==> {
                let token = self.tokens[mint];
                &&& token.supply == ISSUED_UNITS
                &&& token.reading.mint == mint
                &&& fits_budget(token.reading)
                &&& token.holding_account != mint
                &&& token.record_address != mint
                &&& token.record_address != token.holding_account
            }
        &&& forall|first: Seq<u8>, second: Seq<u8>, account: Seq<u8>|
            #![trigger self.uses(first, account), self.uses(second, account)]
            self.uses(first, account) && self.uses(second, account) ==> first == second
    }
}

/// What a transaction learns from outside while it runs: the clock of the
/// execution, and how each provider answers the request made of it.
#[derive(Clone, Copy, Debug, PartialEq, Eq)]
pub struct Environment {
    pub clock: i64,
    pub token_issuer: MintEvent,
    pub registrar: MintEvent,
}

/// Whether the token identity or the holding account of a mint is taken:
/// in use on the ledger, or one account in two roles.
pub open spec fn token_conflict(ledger: LedgerView, accounts: MintTarotNft) -> bool {
    ||| ledger.in_use(accounts.mint@)
    ||| ledger.in_use(accounts.token_account@)
    ||| accounts.mint@ == accounts.payer@
    ||| accounts.token_account@ == accounts.payer@
    ||| accounts.token_account@ == accounts.mint@
}

/// Whether the record account of a mint is taken.
pub open spec fn record_conflict(ledger: LedgerView, accounts: MintTarotNft) -> bool {
    ||| ledger.in_use(accounts.tarot_reading@)
    ||| accounts.tarot_reading@ == accounts.payer@
    ||| accounts.tarot_reading@ == accounts.mint@
    ||| accounts.tarot_reading@ == accounts.token_account@
}

/// What a successful mint attaches to its token.
pub open spec fn minted_token(accounts: MintTarotNft, clock: i64, args: MintArgs) -> MintedToken {
    MintedToken {
        supply: ISSUED_UNITS as nat,
        holding_account: accounts.token_account@,
        record_address: accounts.tarot_reading@,
        reading: record_of(accounts, clock, args),
        descriptor: descriptor_of(args.nft_name, args.metadata_cid, accounts.payer),
    }
}

/// What a mint comes to on `ledger`, where the derivation of the record
/// address gave `derived`: the ledger with the new token, or the error. The
/// first of these that holds decides: the token identity or the holding
/// account is taken; the record account is not at the derived address; the
/// record account is taken; the record does not fit; the token provider
/// rejects; the metadata registrar rejects.
pub open spec fn mint_result(
    ledger: LedgerView,
    env: Environment,
    accounts: MintTarotNft,
    args: MintArgs,
    derived: Option<(Seq<u8>, u8)>,
) -> Result<LedgerView, MintError> {
    if token_conflict(ledger, accounts) {
        Err(MintError::AccountStateConflict)
    } else if !record_account_matches(derived, accounts.tarot_reading@) {
        Err(MintError::RecordAddressMismatch)
    } else if record_conflict(ledger, accounts) {
        Err(MintError::AccountStateConflict)
    } else if !fits_budget(record_of(accounts, env.clock, args)) {
        Err(MintError::StorageOverflow)
    } else if env.token_issuer is Rejected {
        Err(MintError::CapabilityInvocationFailure(Capability::TokenIssuer))
    } else if env.registrar is Rejected {
        Err(MintError::CapabilityInvocationFailure(Capability::MetadataRegistrar))
    } else {
        Ok(ledger.with_token(accounts.mint@, minted_token(accounts, env.clock, args)))
    }
}

/// What the outside reports to a mint on the ledger, step by step: the
/// answer of the token provider, the record written, the answer of the
/// metadata registrar.
pub open spec fn reports(env: Environment) -> Seq<MintEvent> {
    seq![env.token_issuer, MintEvent::Completed, env.registrar]
}

/// A mint that is not refused for its accounts or its record changes the
/// ledger exactly when its transaction ends with the metadata registered,
/// and fails exactly when its transaction aborts: no step of an aborted
/// transaction shows on the ledger.
pub proof fn lemma_ledger_follows_transaction(
    ledger: LedgerView,
    env: Environment,
    accounts: MintTarotNft,
    args: MintArgs,
    derived: Option<(Seq<u8>, u8)>,
)
    requires
        !token_conflict(ledger, accounts),
        record_account_matches(derived, accounts.tarot_reading@),
        !record_conflict(ledger, accounts),
        fits_budget(record_of(accounts, env.clock, args)),
    ensures
        mint_result(ledger, env, accounts, args, derived) is Ok <==> run(
            MintState::Requested,
            reports(env),
        ) is MetadataRegistered,
        mint_result(ledger, env, accounts, args, derived) is Err <==> run(
            MintState::Requested,
            reports(env),
        ) is Aborted,
{
    let events = reports(env);
    lemma_all_or_nothing(events);
    if env.token_issuer is Rejected {
        assert(events[0] is Rejected);
    }
    if env.registrar is Rejected {
        assert(events[2] is Rejected);
    }
    if rejected_within(events) {
        let i = choose|i: int| 0 <= i < events.len() && i < 3 && events[i] is Rejected;
        assert(i == 0 || i == 2);
    }
}

/// A token identity in use is taken for every later mint: a call that
/// reuses it fails with a conflict, whatever else it asks for.
pub proof fn lemma_reuse_conflicts(
    ledger: LedgerView,
    env: Environment,
    accounts: MintTarotNft,
    args: MintArgs,
    derived: Option<(Seq<u8>, u8)>,
)
    requires
        ledger.in_use(accounts.mint@),
    ensures
        mint_result(ledger, env, accounts, args, derived) == Err::<LedgerView, MintError>(
            MintError::AccountStateConflict,
        ),
{
}

/// A record that does not fit makes a mint fail with a storage overflow,
/// unless the call is refused for its accounts before the record is looked
/// at.
pub proof fn lemma_overflow_fails(
    ledger: LedgerView,
    env: Environment,
    accounts: MintTarotNft,
    args: MintArgs,
    derived: Option<(Seq<u8>, u8)>,
)
    requires
        !fits_budget(record_of(accounts, env.clock, args)),
        !token_conflict(ledger, accounts),
        record_account_matches(derived, accounts.tarot_reading@),
        !record_conflict(ledger, accounts),
    ensures
        mint_result(ledger, env, accounts, args, derived) == Err::<LedgerView, MintError>(
            MintError::StorageOverflow,
        ),
{
}

/// What a successful mint leaves on the ledger: the record as given, with
/// the clock of the execution as timestamp, the requester as owner and the
/// new identity as mint, at the record account of the call, which is the
/// derived address; one unit of the token, all of it in the holding account
/// of the requester; the descriptor; and everything that was there before,
/// unchanged. The ledger stays well-formed.
pub proof fn lemma_mint_attaches(
    ledger: LedgerView,
    env: Environment,
    accounts: MintTarotNft,
    args: MintArgs,
    derived: Option<(Seq<u8>, u8)>,
)
    requires
        ledger.wf(),
        mint_result(ledger, env, accounts, args, derived) is Ok,
    ensures
        ({
            let after = mint_result(ledger, env, accounts, args, derived).unwrap();
            let mint = accounts.mint@;
            let record = record_of(accounts, env.clock, args);
            &&& after.wf()
            &&& after.includes(ledger)
            &&& !ledger.in_use(mint)
            &&& after.in_use(mint)
            &&& after.in_use(accounts.token_account@)
            &&& after.in_use(accounts.tarot_reading@)
            &&& after.reading_of(mint) == Some(record)
            &&& record.spread_type == args.spread_type
            &&& record.cards == args.cards
            &&& record.ai_feedback == args.ai_feedback
            &&& record.image_cid == args.image_cid
            &&& record.metadata_cid == args.metadata_cid
            &&& record.reading_timestamp == env.clock
            &&& record.owner == accounts.payer@
            &&& record.mint == mint
            &&& after.record_address_for(mint) == Some(accounts.tarot_reading@)
            &&& record_account_matches(derived, accounts.tarot_reading@)
            &&& after.supply(mint) == 1
            &&& after.balance(accounts.token_account@, mint) == 1
            &&& forall|holder: Seq<u8>|
                holder != accounts.token_account@ ==> #[trigger] after.balance(holder, mint) == 0
            &&& after.descriptor_for(mint) == Some(
                descriptor_of(args.nft_name, args.metadata_cid, accounts.payer),
            )
        }),
{
    let after = mint_result(ledger, env, accounts, args, derived).unwrap();
    let mint = accounts.mint@;
    let token = minted_token(accounts, env.clock, args);
    assert(after == ledger.with_token(mint, token));
    assert(!ledger.tokens.dom().contains(mint)) by {
        if ledger.tokens.dom().contains(mint) {
            assert(ledger.uses(mint, mint));
        }
    }
    assert(after.uses(mint, mint));
    assert(after.uses(mint, accounts.token_account@));
    assert(after.uses(mint, accounts.tarot_reading@));
    assert forall|first: Seq<u8>, second: Seq<u8>, account: Seq<u8>|
        after.uses(first, account) && after.uses(second, account) implies first == second by {
        if first != mint {
            assert(ledger.uses(first, account));
        }
        if second != mint {
            assert(ledger.uses(second, account));
        }
    }
    assert forall|other: Seq<u8>| #[trigger] after.tokens.dom().contains(other) implies {
        let found = after.tokens[other];
        &&& found.supply == ISSUED_UNITS
        &&& found.reading.mint == other
        &&& fits_budget(found.reading)
        &&& found.holding_account != other
        &&& found.record_address != other
        &&& found.record_address != found.holding_account
    } by {
        if other != mint {
            assert(ledger.tokens.dom().contains(other));
        }
    }
}

/// Two mints that went through, the second on a ledger that includes what
/// the first left, have different token identities, different holding
/// accounts and different record accounts.
pub proof fn lemma_mints_never_collide(
    ledger: LedgerView,
    first_env: Environment,
    first: MintTarotNft,
    first_args: MintArgs,
    first_derived: Option<(Seq<u8>, u8)>,
    later: LedgerView,
    second_env: Environment,
    second: MintTarotNft,
    second_args: MintArgs,
    second_derived: Option<(Seq<u8>, u8)>,
)
    requires
        ledger.wf(),
        mint_result(ledger, first_env, first, first_args, first_derived) is Ok,
        later.includes(mint_result(ledger, first_env, first, first_args, first_derived).unwrap()),
        mint_result(later, second_env, second, second_args, second_derived) is Ok,
    ensures
        first.mint@ != second.mint@,
        first.token_account@ != second.token_account@,
        first.tarot_reading@ != second.tarot_reading@,
        first.mint != second.mint,
        first.token_account != second.token_account,
        first.tarot_reading != second.tarot_reading,
{
    let after = mint_result(ledger, first_env, first, first_args, first_derived).unwrap();
    let mint = first.mint@;
    lemma_mint_attaches(ledger, first_env, first, first_args, first_derived);
    assert(after.uses(mint, mint));
    assert(after.uses(mint, first.token_account@));
    assert(after.uses(mint, first.tarot_reading@));
    assert(later.tokens.dom().contains(mint));
    assert(later.uses(mint, mint));
    assert(later.uses(mint, first.token_account@));
    assert(later.uses(mint, first.tarot_reading@));
}

/// Two requests for one token identity, each of which would go through on
/// `ledger`: whichever runs first wins, and the other fails with a conflict.
pub proof fn lemma_one_identity_is_minted_once(
    ledger: LedgerView,
    first_env: Environment,
    first: MintTarotNft,
    first_args: MintArgs,
    first_derived: Option<(Seq<u8>, u8)>,
    second_env: Environment,
    second: MintTarotNft,
    second_args: MintArgs,
    second_derived: Option<(Seq<u8>, u8)>,
)
    requires
        ledger.wf(),
        first.mint@ == second.mint@,
        mint_result(ledger, first_env, first, first_args, first_derived) is Ok,
        mint_result(ledger, second_env, second, second_args, second_derived) is Ok,
    ensures
        mint_result(
            mint_result(ledger, first_env, first, first_args, first_derived).unwrap(),
            second_env,
            second,
            second_args,
            second_derived,
        ) == Err::<LedgerView, MintError>(MintError::AccountStateConflict),
        mint_result(
            mint_result(ledger, second_env, second, second_args, second_derived).unwrap(),
            first_env,
            first,
            first_args,
            first_derived,
        ) == Err::<LedgerView, MintError>(MintError::AccountStateConflict),
{
    lemma_mint_attaches(ledger, first_env, first, first_args, first_derived);
    lemma_mint_attaches(ledger, second_env, second, second_args, second_derived);
}

/// Whether two calls share none of the accounts that they create.
pub open spec fn independent(first: MintTarotNft, second: MintTarotNft) -> bool {
    &&& first.mint@ != second.mint@
    &&& first.mint@ != second.token_account@
    &&& first.mint@ != second.tarot_reading@
    &&& first.token_account@ != second.mint@
    &&& first.token_account@ != second.token_account@
    &&& first.token_account@ != second.tarot_reading@
    &&& first.tarot_reading@ != second.mint@
    &&& first.tarot_reading@ != second.token_account@
    &&& first.tarot_reading@ != second.tarot_reading@
}

/// Requests that share none of the accounts that they create do not
/// interfere: where each would go through on `ledger`, both go through one
/// after the other, and the ledger that they leave does not depend on
/// their order.
pub proof fn lemma_independent_mints_commute(
    ledger: LedgerView,
    first_env: Environment,
    first: MintTarotNft,
    first_args: MintArgs,
    first_derived: Option<(Seq<u8>, u8)>,
    second_env: Environment,
    second: MintTarotNft,
    second_args: MintArgs,
    second_derived: Option<(Seq<u8>, u8)>,
)
    requires
        independent(first, second),
        mint_result(ledger, first_env, first, first_args, first_derived) is Ok,
        mint_result(ledger, second_env, second, second_args, second_derived) is Ok,
    ensures
        ({
            let after_first = mint_result(ledger, first_env, first, first_args, first_derived).unwrap();
            let after_second = mint_result(
                ledger,
                second_env,
                second,
                second_args,
                second_derived,
            ).unwrap();
            let one_way = mint_result(after_first, second_env, second, second_args, second_derived);
            let other_way = mint_result(after_second, first_env, first, first_args, first_derived);
            one_way is Ok && other_way == one_way
        }),
{
    let first_token = minted_token(first, first_env.clock, first_args);
    let second_token = minted_token(second, second_env.clock, second_args);
    let after_first = ledger.with_token(first.mint@, first_token);
    let after_second = ledger.with_token(second.mint@, second_token);
    assert(!ledger.tokens.dom().contains(first.mint@)) by {
        if ledger.tokens.dom().contains(first.mint@) {
            assert(ledger.uses(first.mint@, first.mint@));
        }
    }
    assert(!ledger.tokens.dom().contains(second.mint@)) by {
        if ledger.tokens.dom().contains(second.mint@) {
            assert(ledger.uses(second.mint@, second.mint@));
        }
    }
    lemma_with_token_uses(ledger, first.mint@, first_token);
    lemma_with_token_uses(ledger, second.mint@, second_token);
    assert(!token_conflict(after_first, second) && !record_conflict(after_first, second)) by {
        assert(!after_first.in_use(second.mint@));
        assert(!after_first.in_use(second.token_account@));
        assert(!after_first.in_use(second.tarot_reading@));
    }
    assert(!token_conflict(after_second, first) && !record_conflict(after_second, first)) by {
        assert(!after_second.in_use(first.mint@));
        assert(!after_second.in_use(first.token_account@));
        assert(!after_second.in_use(first.tarot_reading@));
    }
    assert(after_first.with_token(second.mint@, second_token).tokens =~= after_second.with_token(
        first.mint@,
        first_token,
    ).tokens);
}

/// The accounts in use on a ledger with one more token are those that were
/// in use and those of the new token.
proof fn lemma_with_token_uses(ledger: LedgerView, mint: Seq<u8>, token: MintedToken)
    requires
        !ledger.tokens.dom().contains(mint),
    ensures
        forall|account: Seq<u8>| #[trigger]
            ledger.with_token(mint, token).in_use(account) <==> ledger.in_use(account) || account
                == mint || account == token.holding_account || account == token.record_address,
{
    let after = ledger.with_token(mint, token);
    assert forall|account: Seq<u8>| #[trigger]
        after.in_use(account) <==> ledger.in_use(account) || account == mint || account
            == token.holding_account || account == token.record_address by {
        if after.in_use(account) {
            let user = choose|user: Seq<u8>| after.uses(user, account);
            if user != mint {
                assert(ledger.uses(user, account));
            }
        }
        if ledger.in_use(account) {
            let user = choose|user: Seq<u8>| ledger.uses(user, account);
            assert(after.uses(user, account));
        }
        if account == mint || account == token.holding_account || account == token.record_address {
            assert(after.uses(mint, account));
        }
    }
}

/// A reading that is on a ledger is on every ledger that includes it, as it
/// was written: with its token, at its address, in its holding account.
pub proof fn lemma_readings_are_kept(earlier: LedgerView, later: LedgerView, mint: Seq<u8>)
    requires
        later.includes(earlier),
        earlier.reading_of(mint) is Some,
    ensures
        later.reading_of(mint) == earlier.reading_of(mint),
        later.record_address_for(mint) == earlier.record_address_for(mint),
        later.descriptor_for(mint) == earlier.descriptor_for(mint),
        later.supply(mint) == earlier.supply(mint),
        forall|holder: Seq<u8>| #[trigger]
            later.balance(holder, mint) == earlier.balance(holder, mint),
{
    assert(earlier.tokens.dom().contains(mint));
}

/// One minted token as the ledger keeps it.
struct Entry {
    mint: Address,
    token_account: Address,
    tarot_reading: Address,
    supply: u64,
    record: TarotReading,
    descriptor: MetadataDescriptor,
}

impl Entry {
    spec fn token(self) -> MintedToken {
        MintedToken {
            supply: self.supply as nat,
            holding_account: self.token_account@,
            record_address: self.tarot_reading@,
            reading: self.record@,
            descriptor: self.descriptor@,
        }
    }

    spec fn uses(self, account: Seq<u8>) -> bool {
        account == self.mint@ || account == self.token_account@ || account == self.tarot_reading@
    }

    spec fn sound(self) -> bool {
        &&& self.supply == ISSUED_UNITS
        &&& self.record@.mint == self.mint@
        &&& fits_budget(self.record@)
        &&& self.token_account@ != self.mint@
        &&& self.tarot_reading@ != self.mint@
        &&& self.tarot_reading@ != self.token_account@
    }
}

/// The tokens that a list of entries stands for.
spec fn tokens_of(entries: Seq<Entry>) -> Map<Seq<u8>, MintedToken>
    decreases entries.len(),
{
    if entries.len() == 0 {
        Map::empty()
    } else {
        tokens_of(entries.drop_last()).insert(entries.last().mint@, entries.last().token())
    }
}

/// Whether entry `i` is in the list and uses `account`.
spec fn entry_uses(entries: Seq<Entry>, i: int, account: Seq<u8>) -> bool {
    0 <= i < entries.len() && entries[i].uses(account)
}

/// Every entry is sound, and no account serves two entries.
spec fn entries_sound(entries: Seq<Entry>) -> bool {
    &&& forall|i: int| 0 <= i < entries.len() ==> (#[trigger] entries[i]).sound()
    &&& forall|i: int, j: int, account: Seq<u8>|
        #![trigger entry_uses(entries, i, account), entry_uses(entries, j, account)]
        entry_uses(entries, i, account) && entry_uses(entries, j, account) ==> i == j
}

/// The tokens of a list are those of its entries, each under its identity.
proof fn lemma_tokens_of(entries: Seq<Entry>)
    requires
        entries_sound(entries),
    ensures
        forall|mint: Seq<u8>| #[trigger]
            tokens_of(entries).dom().contains(mint) ==> exists|i: int|
                entry_uses(entries, i, mint) && entries[i].mint@ == mint,
        forall|i: int|
            0 <= i < entries.len() ==> tokens_of(entries).dom().contains(
                (#[trigger] entries[i]).mint@,
            ) && tokens_of(entries)[entries[i].mint@] == entries[i].token(),
    decreases entries.len(),
{
    if entries.len() > 0 {
        let before = entries.drop_last();
        let last = entries.len() - 1;
        assert forall|i: int, j: int, account: Seq<u8>|
            entry_uses(before, i, account) && entry_uses(before, j, account) implies i == j by {
            assert(entry_uses(entries, i, account) && entry_uses(entries, j, account));
        }
        lemma_tokens_of(before);
        assert forall|mint: Seq<u8>| #[trigger]
            tokens_of(entries).dom().contains(mint) implies exists|i: int|
            entry_uses(entries, i, mint) && entries[i].mint@ == mint by {
            if mint == entries.last().mint@ {
                assert(entry_uses(entries, last, mint) && entries[last].mint@ == mint);
            } else {
                assert(tokens_of(before).dom().contains(mint));
                let i = choose|i: int| entry_uses(before, i, mint) && before[i].mint@ == mint;
                assert(entry_uses(entries, i, mint) && entries[i].mint@ == mint);
            }
        }
        assert forall|i: int| 0 <= i < entries.len() implies tokens_of(entries).dom().contains(
            (#[trigger] entries[i]).mint@,
        ) && tokens_of(entries)[entries[i].mint@] == entries[i].token() by {
            if i < last {
                assert(before[i] == entries[i]);
                assert(entry_uses(entries, i, entries[i].mint@));
                assert(entry_uses(entries, last, entries[last].mint@));
                assert(entries[i].mint@ != entries[last].mint@);
            }
        }
    }
}

/// An account is in use on the ledger of a list exactly when an entry of the
/// list uses it.
proof fn lemma_in_use(entries: Seq<Entry>, account: Seq<u8>)
    requires
        entries_sound(entries),
    ensures
        (LedgerView { tokens: tokens_of(entries) }).in_use(account) <==> exists|i: int|
            entry_uses(entries, i, account),
{
    let ledger = LedgerView { tokens: tokens_of(entries) };
    lemma_tokens_of(entries);
    if ledger.in_use(account) {
        let mint = choose|mint: Seq<u8>| ledger.uses(mint, account);
        let i = choose|i: int| entry_uses(entries, i, mint) && entries[i].mint@ == mint;
        assert(entry_uses(entries, i, account));
    }
    if exists|i: int| entry_uses(entries, i, account) {
        let i = choose|i: int| entry_uses(entries, i, account);
        assert(ledger.uses(entries[i].mint@, account));
    }
}

/// The ledger of a sound list is well-formed.
proof fn lemma_sound_is_wf(entries: Seq<Entry>)
    requires
        entries_sound(entries),
    ensures
        (LedgerView { tokens: tokens_of(entries) }).wf(),
{
    let ledger = LedgerView { tokens: tokens_of(entries) };
    lemma_tokens_of(entries);
    assert forall|mint: Seq<u8>| #[trigger] ledger.tokens.dom().contains(mint) implies {
        let token = ledger.tokens[mint];
        &&& token.supply == ISSUED_UNITS
        &&& token.reading.mint == mint
        &&& fits_budget(token.reading)
        &&& token.holding_account != mint
        &&& token.record_address != mint
        &&& token.record_address != token.holding_account
    } by {
        let i = choose|i: int| entry_uses(entries, i, mint) && entries[i].mint@ == mint;
        assert(entries[i].sound());
    }
    assert forall|first: Seq<u8>, second: Seq<u8>, account: Seq<u8>|
        ledger.uses(first, account) && ledger.uses(second, account) implies first == second by {
        let i = choose|i: int| entry_uses(entries, i, first) && entries[i].mint@ == first;
        let j = choose|j: int| entry_uses(entries, j, second) && entries[j].mint@ == second;
        assert(entry_uses(entries, i, account));
        assert(entry_uses(entries, j, account));
    }
}

/// The account store: every token that was minted, with its holding, its
/// reading and its descriptor. It changes only by a mint, which adds to it
/// and never alters what is there.
pub struct Ledger {
    entries: Vec<Entry>,
}

impl View for Ledger {
    type V = LedgerView;

    closed spec fn view(&self) -> LedgerView {
        LedgerView { tokens: tokens_of(self.entries@) }
    }
}

impl Ledger {
    #[verifier::type_invariant]
    spec fn inv(self) -> bool {
        entries_sound(self.entries@)
    }

    /// A ledger on which nothing was minted.
    pub fn new() -> (ledger: Ledger)
        ensures
            ledger@ == LedgerView::empty(),
            ledger@.wf(),
    {
        let ledger = Ledger { entries: Vec::new() };
        proof {
            lemma_sound_is_wf(ledger.entries@);
        }
        ledger
    }

    /// Where the entry of `mint` is.
    fn position(&self, mint: &Address) -> (found: Option<usize>)
        ensures
            match found {
                Some(i) => i < self.entries.len() && self.entries[i as int].mint@ == mint@,
                None => forall|i: int|
                    0 <= i < self.entries.len() ==> (#[trigger] self.entries[i]).mint@ != mint@,
            },
    {
        let mut i: usize = 0;
        while i < self.entries.len()
            invariant
                i <= self.entries.len(),
                forall|j: int| 0 <= j < i ==> (#[trigger] self.entries[j]).mint@ != mint@,
            decreases self.entries.len() - i,
        {
            if self.entries[i].mint.same(mint) {
                return Some(i);
            }
            i += 1;
        }
        None
    }

    /// Whether a minted token uses `account`: as its identity, its holding
    /// account or its record account.
    pub fn is_in_use(&self, account: &Address) -> (used: bool)
        ensures
            used == self@.in_use(account@),
    {
        proof {
            use_type_invariant(self);
            lemma_in_use(self.entries@, account@);
        }
        let mut i: usize = 0;
        while i < self.entries.len()
            invariant
                i <= self.entries.len(),
                forall|j: int| 0 <= j < i ==> !entry_uses(self.entries@, j, account@),
                self@.in_use(account@) <==> exists|j: int| entry_uses(self.entries@, j, account@),
            decreases self.entries.len() - i,
        {
            let entry = &self.entries[i];
            if entry.mint.same(account) || entry.token_account.same(account)
                || entry.tarot_reading.same(account) {
                assert(entry_uses(self.entries@, i as int, account@));
                return true;
            }
            i += 1;
        }
        false
    }

    /// Units of `mint` in existence.
    pub fn supply_of(&self, mint: &Address) -> (units: u64)
        ensures
            units == self@.supply(mint@),
    {
        proof {
            use_type_invariant(self);
            lemma_tokens_of(self.entries@);
        }
        match self.position(mint) {
            Some(i) => self.entries[i].supply,
            None => 0,
        }
    }

    /// Units of `mint` that account `holder` holds.
    pub fn balance_of(&self, holder: &Address, mint: &Address) -> (units: u64)
        ensures
            units == self@.balance(holder@, mint@),
    {
        proof {
            use_type_invariant(self);
            lemma_tokens_of(self.entries@);
        }
        match self.position(mint) {
            Some(i) => if self.entries[i].token_account.same(holder) {
                self.entries[i].supply
            } else {
                0
            },
            None => 0,
        }
    }

    /// The reading attached to `mint`.
    pub fn reading_of(&self, mint: &Address) -> (reading: Option<&TarotReading>)
        ensures
            match reading {
                Some(found) => self@.reading_of(mint@) == Some(found@),
                None => self@.reading_of(mint@) is None,
            },
    {
        proof {
            use_type_invariant(self);
            lemma_tokens_of(self.entries@);
        }
        match self.position(mint) {
            Some(i) => Some(&self.entries[i].record),
            None => None,
        }
    }

    /// The account that stores the reading attached to `mint`.
    pub fn record_address_for(&self, mint: &Address) -> (address: Option<Address>)
        ensures
            match address {
                Some(found) => self@.record_address_for(mint@) == Some(found@),
                None => self@.record_address_for(mint@) is None,
            },
    {
        proof {
            use_type_invariant(self);
            lemma_tokens_of(self.entries@);
        }
        match self.position(mint) {
            Some(i) => Some(self.entries[i].tarot_reading),
            None => None,
        }
    }

    /// The descriptor registered for `mint`.
    pub fn descriptor_for(&self, mint: &Address) -> (descriptor: Option<&MetadataDescriptor>)
        ensures
            match descriptor {
                Some(found) => self@.descriptor_for(mint@) == Some(found@),
                None => self@.descriptor_for(mint@) is None,
            },
    {
        proof {
            use_type_invariant(self);
            lemma_tokens_of(self.entries@);
        }
        match self.position(mint) {
            Some(i) => Some(&self.entries[i].descriptor),
            None => None,
        }
    }

    /// Whether the token identity or the holding account of `accounts` is
    /// taken.
    fn has_token_conflict(&self, accounts: &MintTarotNft) -> (taken: bool)
        ensures
            taken == token_conflict(self@, *accounts),
    {
        self.is_in_use(&accounts.mint) || self.is_in_use(&accounts.token_account)
            || accounts.mint.same(&accounts.payer) || accounts.token_account.same(&accounts.payer)
            || accounts.token_account.same(&accounts.mint)
    }

    /// Whether the record account of `accounts` is taken.
    fn has_record_conflict(&self, accounts: &MintTarotNft) -> (taken: bool)
        ensures
            taken == record_conflict(self@, *accounts),
    {
        self.is_in_use(&accounts.tarot_reading) || accounts.tarot_reading.same(&accounts.payer)
            || accounts.tarot_reading.same(&accounts.mint) || accounts.tarot_reading.same(
            &accounts.token_account,
        )
    }

    /// Runs a mint up to the point where it settles, without touching the
    /// ledger: the plan of a mint that went through, or the error.
    fn settle(
        &self,
        env: &Environment,
        accounts: &MintTarotNft,
        derived: Option<(Address, u8)>,
        nft_name: String,
        spread_type: String,
        cards: Vec<TarotCard>,
        ai_feedback: String,
        image_cid: String,
        metadata_cid: String,
    ) -> (result: Result<MintPlan, MintError>)
        ensures
            ({
                let args = MintArgs {
                    nft_name: nft_name@,
                    spread_type: spread_type@,
                    cards: cards_view(cards@),
                    ai_feedback: ai_feedback@,
                    image_cid: image_cid@,
                    metadata_cid: metadata_cid@,
                };
                let outcome = mint_result(self@, *env, *accounts, args, derived_view(derived));
                match result {
                    Ok(plan) => outcome is Ok && plan.is_plan_of(*accounts, env.clock, args),
                    Err(error) => outcome == Err::<LedgerView, MintError>(error),
                }
            }),
    {
        if self.has_token_conflict(accounts) {
            return Err(MintError::AccountStateConflict);
        }
        match match_record_account(derived, &accounts.tarot_reading) {
            Ok(_) => {},
            Err(error) => {
                return Err(error);
            },
        }
        if self.has_record_conflict(accounts) {
            return Err(MintError::AccountStateConflict);
        }
        let plan = match plan_mint(
            accounts,
            env.clock,
            nft_name,
            spread_type,
            cards,
            ai_feedback,
            image_cid,
            metadata_cid,
        ) {
            Ok(plan) => plan,
            Err(error) => {
                return Err(error);
            },
        };
        let (state, action) = step(MintState::Requested, env.token_issuer);
        if let MintAction::Revert(error) = action {
            return Err(error);
        }
        let (state, _) = step(state, MintEvent::Completed);
        let (_, action) = step(state, env.registrar);
        if let MintAction::Revert(error) = action {
            return Err(error);
        }
        Ok(plan)
    }

    /// Adds the token of a mint that went through, with its record and its
    /// descriptor.
    fn commit(&mut self, accounts: &MintTarotNft, record: TarotReading, descriptor: MetadataDescriptor)
        requires
            !token_conflict(old(self)@, *accounts),
            !record_conflict(old(self)@, *accounts),
            fits_budget(record@),
            record@.mint == accounts.mint@,
        ensures
            final(self)@ == old(self)@.with_token(
                accounts.mint@,
                (MintedToken {
                    supply: ISSUED_UNITS as nat,
                    holding_account: accounts.token_account@,
                    record_address: accounts.tarot_reading@,
                    reading: record@,
                    descriptor: descriptor@,
                }),
            ),
            final(self)@.wf(),
    {
        proof {
            use_type_invariant(&*self);
            lemma_in_use(self.entries@, accounts.mint@);
            lemma_in_use(self.entries@, accounts.token_account@);
            lemma_in_use(self.entries@, accounts.tarot_reading@);
        }
        let ghost before = self.entries@;
        let entry = Entry {
            mint: accounts.mint,
            token_account: accounts.token_account,
            tarot_reading: accounts.tarot_reading,
            supply: ISSUED_UNITS,
            record,
            descriptor,
        };
        proof {
            let after = before.push(entry);
            let last = before.len() as int;
            assert(after.drop_last() =~= before);
            assert(entry.sound());
            assert forall|i: int| 0 <= i < after.len() implies (#[trigger] after[i]).sound() by {
                if i < last {
                    assert(before[i].sound());
                }
            }
            assert forall|i: int, j: int, account: Seq<u8>|
                entry_uses(after, i, account) && entry_uses(after, j, account) implies i == j by {
                if i < last {
                    assert(entry_uses(before, i, account));
                }
                if j < last {
                    assert(entry_uses(before, j, account));
                }
            }
            assert(entries_sound(after));
            lemma_sound_is_wf(after);
        }
        let mut entries: Vec<Entry> = Vec::new();
        core::mem::swap(&mut self.entries, &mut entries);
        entries.push(entry);
        core::mem::swap(&mut self.entries, &mut entries);
    }
}

/// Mints the token of one reading as one transaction on `ledger`, where the
/// derivation of the record address for the token identity gave `derived`.
///
/// The token is issued, the record is written and the metadata is
/// registered, in this order, each step as `step` asks for it; `env` says
/// how the providers answer. What the call comes to is `mint_result`: on
/// success the ledger holds one more token, with one unit in the holding
/// account of the requester, the record at the derived address and the
/// descriptor, and the confirmation is returned; on failure the ledger is as
/// it was.
pub fn mint_tarot_nft_at(
    ledger: &mut Ledger,
    env: &Environment,
    accounts: &MintTarotNft,
    derived: Option<(Address, u8)>,
    nft_name: String,
    spread_type: String,
    cards: Vec<TarotCard>,
    ai_feedback: String,
    image_cid: String,
    metadata_cid: String,
) -> (result: Result<Vec<String>, MintError>)
    ensures
        ({
            let args = MintArgs {
                nft_name: nft_name@,
                spread_type: spread_type@,
                cards: cards_view(cards@),
                ai_feedback: ai_feedback@,
                image_cid: image_cid@,
                metadata_cid: metadata_cid@,
            };
            let record = record_of(*accounts, env.clock, args);
            let mint = accounts.mint@;
            let outcome = mint_result(old(ledger)@, *env, *accounts, args, derived_view(derived));
            &&& final(ledger)@.wf()
            &&& final(ledger)@.includes(old(ledger)@)
            &&& match result {
                Ok(lines) => {
                    &&& outcome == Ok::<LedgerView, MintError>(final(ledger)@)
                    &&& lines.deep_view() == confirmation_of(record)
                    &&& final(ledger)@.reading_of(mint) == Some(record)
                    &&& final(ledger)@.record_address_for(mint) == Some(accounts.tarot_reading@)
                    &&& record_account_matches(derived_view(derived), accounts.tarot_reading@)
                    &&& final(ledger)@.in_use(mint)
                    &&& final(ledger)@.in_use(accounts.token_account@)
                    &&& final(ledger)@.in_use(accounts.tarot_reading@)
                    &&& final(ledger)@.supply(mint) == 1
                    &&& final(ledger)@.balance(accounts.token_account@, mint) == 1
                    &&& final(ledger)@.descriptor_for(mint) == Some(
                        descriptor_of(args.nft_name, args.metadata_cid, accounts.payer),
                    )
                },
                Err(error) => {
                    &&& outcome == Err::<LedgerView, MintError>(error)
                    &&& *final(ledger) == *old(ledger)
                    &&& final(ledger)@ == old(ledger)@
                },
            }
            &&& old(ledger)@.in_use(mint) ==> result == Err::<Vec<String>, MintError>(
                MintError::AccountStateConflict,
            )
            &&& !fits_budget(record) && !token_conflict(old(ledger)@, *accounts)
                && record_account_matches(derived_view(derived), accounts.tarot_reading@)
                && !record_conflict(old(ledger)@, *accounts) ==> result == Err::<
                Vec<String>,
                MintError,
            >(MintError::StorageOverflow)
        }),
{
    let ghost args = MintArgs {
        nft_name: nft_name@,
        spread_type: spread_type@,
        cards: cards_view(cards@),
        ai_feedback: ai_feedback@,
        image_cid: image_cid@,
        metadata_cid: metadata_cid@,
    };
    let ghost before = ledger@;
    proof {
        use_type_invariant(&*ledger);
        lemma_sound_is_wf(ledger.entries@);
    }
    let settled = ledger.settle(
        env,
        accounts,
        derived,
        nft_name,
        spread_type,
        cards,
        ai_feedback,
        image_cid,
        metadata_cid,
    );
    match settled {
        Ok(plan) => {
            let MintPlan { record, registration, confirmation, .. } = plan;
            ledger.commit(accounts, record, registration.descriptor);
            proof {
                assert(ledger@.tokens =~= before.with_token(
                    accounts.mint@,
                    minted_token(*accounts, env.clock, args),
                ).tokens);
                lemma_mint_attaches(before, *env, *accounts, args, derived_view(derived));
            }
            Ok(confirmation)
        },
        Err(error) => Err(error),
    }
}

/// Mints the token of one reading as one transaction on `ledger`: derives
/// the record address of the new token identity under the program of `ctx`,
/// and mints at it as `mint_tarot_nft_at` does.
pub fn mint_tarot_nft(
    ledger: &mut Ledger,
    env: &Environment,
    ctx: Context<MintTarotNft>,
    nft_name: String,
    spread_type: String,
    cards: Vec<TarotCard>,
    ai_feedback: String,
    image_cid: String,
    metadata_cid: String,
) -> (result: Result<Vec<String>, MintError>)
    ensures
        ({
            let derived = record_address_of(ctx.program_id@, ctx.accounts.mint@);
            let args = MintArgs {
                nft_name: nft_name@,
                spread_type: spread_type@,
                cards: cards_view(cards@),
                ai_feedback: ai_feedback@,
                image_cid: image_cid@,
                metadata_cid: metadata_cid@,
            };
            let record = record_of(ctx.accounts, env.clock, args);
            let mint = ctx.accounts.mint@;
            let outcome = mint_result(old(ledger)@, *env, ctx.accounts, args, derived);
            &&& final(ledger)@.wf()
            &&& final(ledger)@.includes(old(ledger)@)
            &&& match result {
                Ok(lines) => {
                    &&& outcome == Ok::<LedgerView, MintError>(final(ledger)@)
                    &&& lines.deep_view() == confirmation_of(record)
                    &&& final(ledger)@.reading_of(mint) == Some(record)
                    &&& final(ledger)@.record_address_for(mint) == Some(ctx.accounts.tarot_reading@)
                    &&& record_account_matches(derived, ctx.accounts.tarot_reading@)
                    &&& final(ledger)@.in_use(mint)
                    &&& final(ledger)@.in_use(ctx.accounts.token_account@)
                    &&& final(ledger)@.in_use(ctx.accounts.tarot_reading@)
                    &&& final(ledger)@.supply(mint) == 1
                    &&& final(ledger)@.balance(ctx.accounts.token_account@, mint) == 1
                    &&& final(ledger)@.descriptor_for(mint) == Some(
                        descriptor_of(args.nft_name, args.metadata_cid, ctx.accounts.payer),
                    )
                },
                Err(error) => {
                    &&& outcome == Err::<LedgerView, MintError>(error)
                    &&& *final(ledger) == *old(ledger)
                    &&& final(ledger)@ == old(ledger)@
                },
            }
            &&& old(ledger)@.in_use(mint) ==> result == Err::<Vec<String>, MintError>(
                MintError::AccountStateConflict,
            )
            &&& !fits_budget(record) && !token_conflict(old(ledger)@, ctx.accounts)
                && record_account_matches(derived, ctx.accounts.tarot_reading@)
                && !record_conflict(old(ledger)@, ctx.accounts) ==> result == Err::<
                Vec<String>,
                MintError,
            >(MintError::StorageOverflow)
        }),
{
    let derived = record_address(&ctx.program_id, &ctx.accounts.mint);
    mint_tarot_nft_at(
        ledger,
        env,
        &ctx.accounts,
        derived,
        nft_name,
        spread_type,
        cards,
        ai_feedback,
        image_cid,
        metadata_cid,
    )
}

} // verus!
