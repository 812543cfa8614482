//! The mint as one transaction: what it asks of the outside, in which order,
//! and how it settles.
//!
//! The token is issued, the record is written, the metadata is registered.
//! Each step is carried out by the caller of `step`, who reports how it went.
//! The first rejection aborts the transaction, and what an aborted
//! transaction had done is undone with it.

use crate::accounts::MintTarotNft;
use crate::address::{derived_view, Address};
use crate::confirmation::{confirmation, confirmation_of};
use crate::descriptor::{
    build_descriptor, descriptor_of, registration_of, registration_request, MetadataRegistration,
    MetadataRegistrationView,
};
use crate::issuer::{issue_of, issue_request, MintTo};
use crate::reading::{cards_view, fits_budget, TarotCard, TarotCardView, TarotReading, TarotReadingView};
use vstd::prelude::*;

verus! {

/// An outside provider that the mint delegates to.
#[derive(Clone, Copy, Debug, PartialEq, Eq, Structural)]
pub enum Capability {
    TokenIssuer,
    MetadataRegistrar,
}

/// Why a mint failed. Every failure leaves nothing behind.
#[derive(Clone, Copy, Debug, PartialEq, Eq, Structural)]
pub enum MintError {
    /// A provider rejected the request made of it.
    CapabilityInvocationFailure(Capability),
    /// An account that the mint creates is in use already.
    AccountStateConflict,
    /// The record does not fit the bytes reserved for it.
    StorageOverflow,
    /// The record account is not at the address derived from the token
    /// identity.
    RecordAddressMismatch,
}

/// How far a mint has come.
#[derive(Clone, Copy, Debug, PartialEq, Eq, Structural)]
pub enum MintState {
    Requested,
    TokenMinted,
    RecordWritten,
    MetadataRegistered,
    Aborted,
}

/// How the step that was asked for went.
#[derive(Clone, Copy, Debug, PartialEq, Eq, Structural)]
pub enum MintEvent {
    Completed,
    Rejected,
}

/// What the caller is asked to do next.
#[derive(Clone, Copy, Debug, PartialEq, Eq, Structural)]
pub enum MintAction {
    /// Hand the issue request to the token provider.
    IssueToken,
    /// Store the record in the record account.
    WriteRecord,
    /// Hand the registration request to the metadata registrar.
    RegisterMetadata,
    /// Commit, and emit the confirmation.
    Confirm,
    /// Undo every step made, and fail with this error.
    Revert(MintError),
    /// Nothing: the transaction has settled.
    Halt,
}

impl MintState {
    /// Whether the transaction is over, for better or worse.
    pub open spec fn settled(self) -> bool {
        self is MetadataRegistered || self is Aborted
    }

    /// The step that a transaction in this state waits for.
    pub open spec fn pending(self) -> MintAction {
        match self {
            MintState::Requested => MintAction::IssueToken,
            MintState::TokenMinted => MintAction::WriteRecord,
            MintState::RecordWritten => MintAction::RegisterMetadata,
            MintState::MetadataRegistered => MintAction::Halt,
            MintState::Aborted => MintAction::Halt,
        }
    }

    /// The error with which a transaction fails whose pending step is
    /// rejected: a capability failure where a provider was asked, a storage
    /// overflow where the record could not be stored.
    pub open spec fn rejection(self) -> MintError {
        match self {
            MintState::TokenMinted => MintError::StorageOverflow,
            MintState::RecordWritten => MintError::CapabilityInvocationFailure(
                Capability::MetadataRegistrar,
            ),
            _ => MintError::CapabilityInvocationFailure(Capability::TokenIssuer),
        }
    }

    /// The state after the pending step went as `event` says.
    pub open spec fn after(self, event: MintEvent) -> MintState {
        match (self, event) {
            (MintState::Requested, MintEvent::Completed) => MintState::TokenMinted,
            (MintState::TokenMinted, MintEvent::Completed) => MintState::RecordWritten,
            (MintState::RecordWritten, MintEvent::Completed) => MintState::MetadataRegistered,
            (MintState::MetadataRegistered, _) => MintState::MetadataRegistered,
            (_, _) => MintState::Aborted,
        }
    }

    /// What is asked of the caller once the pending step went as `event`
    /// says.
    pub open spec fn then_do(self, event: MintEvent) -> MintAction {
        if self.settled() {
            MintAction::Halt
        } else if event is Rejected {
            MintAction::Revert(self.rejection())
        } else if self.after(event) is MetadataRegistered {
            MintAction::Confirm
        } else {
            self.after(event).pending()
        }
    }
}

/// The action that opens a transaction.
pub fn first_action() -> (action: MintAction)
    ensures
        action == MintState::Requested.pending(),
        action is IssueToken,
{
    MintAction::IssueToken
}

/// Moves a transaction on: from its state and the outcome of the step it
/// waited for, to its next state and the next thing to do.
pub fn step(state: MintState, event: MintEvent) -> (next: (MintState, MintAction))
    ensures
        next.0 == state.after(event),
        next.1 == state.then_do(event),
{
    match state {
        MintState::MetadataRegistered => (MintState::MetadataRegistered, MintAction::Halt),
        MintState::Aborted => (MintState::Aborted, MintAction::Halt),
        MintState::Requested => match event {
            MintEvent::Completed => (MintState::TokenMinted, MintAction::WriteRecord),
            MintEvent::Rejected => (
                MintState::Aborted,
                MintAction::Revert(MintError::CapabilityInvocationFailure(Capability::TokenIssuer)),
            ),
        },
        MintState::TokenMinted => match event {
            MintEvent::Completed => (MintState::RecordWritten, MintAction::RegisterMetadata),
            MintEvent::Rejected => (MintState::Aborted, MintAction::Revert(MintError::StorageOverflow)),
        },
        MintState::RecordWritten => match event {
            MintEvent::Completed => (MintState::MetadataRegistered, MintAction::Confirm),
            MintEvent::Rejected => (
                MintState::Aborted,
                MintAction::Revert(
                    MintError::CapabilityInvocationFailure(Capability::MetadataRegistrar),
                ),
            ),
        },
    }
}

/// The state of a transaction that started in `state` and saw `events`.
pub open spec fn run(state: MintState, events: Seq<MintEvent>) -> MintState
    decreases events.len(),
{
    if events.len() == 0 {
        state
    } else {
        run(state, events.drop_last()).after(events.last())
    }
}

/// A settled transaction stays as it is, whatever is reported to it.
pub proof fn lemma_settled_is_final(state: MintState, events: Seq<MintEvent>)
    requires
        state.settled(),
    ensures
        run(state, events) == state,
    decreases events.len(),
{
    if events.len() > 0 {
        lemma_settled_is_final(state, events.drop_last());
    }
}

/// Whether one of the first three reports in `events` is a rejection.
pub open spec fn rejected_within(events: Seq<MintEvent>) -> bool {
    exists|i: int| 0 <= i < events.len() && i < 3 && events[i] is Rejected
}

/// A transaction succeeds exactly when its three steps completed, and it
/// aborts exactly when one of them was rejected: after three reports it has
/// settled, and no step of an aborted transaction counts.
pub proof fn lemma_all_or_nothing(events: Seq<MintEvent>)
    ensures
        run(MintState::Requested, events) is Aborted <==> rejected_within(events),
        run(MintState::Requested, events) is MetadataRegistered <==> events.len() >= 3
            && !rejected_within(events),
        run(MintState::Requested, events) is RecordWritten <==> events.len() == 2
            && !rejected_within(events),
        run(MintState::Requested, events) is TokenMinted <==> events.len() == 1
            && !rejected_within(events),
        events.len() >= 3 ==> run(MintState::Requested, events).settled(),
    decreases events.len(),
{
    if events.len() > 0 {
        let before = events.drop_last();
        lemma_all_or_nothing(before);
        if rejected_within(before) {
            let i = choose|i: int| 0 <= i < before.len() && i < 3 && before[i] is Rejected;
            assert(events[i] is Rejected);
        }
        if rejected_within(events) && !rejected_within(before) {
            let i = choose|i: int| 0 <= i < events.len() && i < 3 && events[i] is Rejected;
            if i < before.len() {
                assert(before[i] is Rejected);
            }
        }
        if events.len() <= 3 && events.last() is Rejected {
            assert(events[events.len() - 1] is Rejected);
        }
    }
}

/// The arguments of a mint, as mathematical values.
pub struct MintArgs {
    pub nft_name: Seq<char>,
    pub spread_type: Seq<char>,
    pub cards: Seq<TarotCardView>,
    pub ai_feedback: Seq<char>,
    pub image_cid: Seq<char>,
    pub metadata_cid: Seq<char>,
}

/// The record that a mint writes: the texts and cards as given, the clock
/// of the execution as timestamp, the requester as owner, the new token
/// identity as mint.
pub open spec fn record_of(accounts: MintTarotNft, clock: i64, args: MintArgs) -> TarotReadingView {
    TarotReadingView {
        spread_type: args.spread_type,
        cards: args.cards,
        ai_feedback: args.ai_feedback,
        reading_timestamp: clock as int,
        image_cid: args.image_cid,
        metadata_cid: args.metadata_cid,
        owner: accounts.payer@,
        mint: accounts.mint@,
    }
}

/// The request that a mint makes of the metadata registrar.
pub open spec fn registration_for(accounts: MintTarotNft, args: MintArgs) -> MetadataRegistrationView {
    registration_of(accounts, descriptor_of(args.nft_name, args.metadata_cid, accounts.payer))
}

/// Whether `account` is the address that a derivation gave.
pub open spec fn record_account_matches(derived: Option<(Seq<u8>, u8)>, account: Seq<u8>) -> bool {
    match derived {
        Some(found) => found.0 == account,
        None => false,
    }
}

/// Checks that the record account of a call is at the address that the
/// derivation for its token identity gave, and returns the bump seed of
/// that address.
pub fn match_record_account(derived: Option<(Address, u8)>, account: &Address) -> (result: Result<
    u8,
    MintError,
>)
    ensures
        match result {
            Ok(bump) => derived_view(derived) == Some((account@, bump)),
            Err(error) => error == MintError::RecordAddressMismatch && !record_account_matches(
                derived_view(derived),
                account@,
            ),
        },
{
    match derived {
        Some((address, bump)) => if address.same(account) {
            Ok(bump)
        } else {
            Err(MintError::RecordAddressMismatch)
        },
        None => Err(MintError::RecordAddressMismatch),
    }
}

/// All that a mint hands to the outside, worked out before its first step.
#[derive(Clone, Debug, PartialEq, Eq)]
pub struct MintPlan {
    /// For `MintAction::IssueToken`.
    pub issue: MintTo,
    /// For `MintAction::WriteRecord`.
    pub record: TarotReading,
    /// For `MintAction::RegisterMetadata`.
    pub registration: MetadataRegistration,
    /// For `MintAction::Confirm`.
    pub confirmation: Vec<String>,
}

impl MintPlan {
    /// Whether this is the plan of the mint with these accounts, clock and
    /// arguments.
    pub open spec fn is_plan_of(self, accounts: MintTarotNft, clock: i64, args: MintArgs) -> bool {
        &&& self.issue == issue_of(accounts)
        &&& self.record@ == record_of(accounts, clock, args)
        &&& self.registration@ == registration_for(accounts, args)
        &&& self.confirmation.deep_view() == confirmation_of(record_of(accounts, clock, args))
    }
}

/// Plans a mint. The plan issues one unit of the new token to the holding
/// account of the requester, writes the record of `record_of`, registers
/// the descriptor of the token, and confirms with spread type and card
/// count. Where the record does not fit the bytes reserved for it, there is
/// no plan, so that nothing is issued.
pub fn plan_mint(
    accounts: &MintTarotNft,
    clock: i64,
    nft_name: String,
    spread_type: String,
    cards: Vec<TarotCard>,
    ai_feedback: String,
    image_cid: String,
    metadata_cid: String,
) -> (result: Result<MintPlan, MintError>)
    ensures
        ({
            let args = MintArgs {
                nft_name: nft_name@,
                spread_type: spread_type@,
                cards: cards_view(cards@),
                ai_feedback: ai_feedback@,
                image_cid: image_cid@,
                metadata_cid: metadata_cid@,
            };
            match result {
                Ok(plan) => fits_budget(record_of(*accounts, clock, args)) && plan.is_plan_of(
                    *accounts,
                    clock,
                    args,
                ),
                Err(error) => error == MintError::StorageOverflow && !fits_budget(
                    record_of(*accounts, clock, args),
                ),
            }
        }),
{
    let issue = issue_request(accounts);
    let descriptor = build_descriptor(nft_name, &metadata_cid, accounts.payer);
    let registration = registration_request(accounts, descriptor);
    let record = TarotReading::new(
        spread_type,
        cards,
        ai_feedback,
        clock,
        image_cid,
        metadata_cid,
        accounts.payer,
        accounts.mint,
    );
    if !record.fits_budget() {
        return Err(MintError::StorageOverflow);
    }
    let confirmation = confirmation(&record);
    Ok(MintPlan { issue, record, registration, confirmation })
}

} // verus!
