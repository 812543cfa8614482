//! Account identities and the derivation of record addresses.

use vstd::prelude::*;

verus! {

/// The identity of an account: a requester, a token, a holding account, a
/// record account or a capability provider.
#[derive(Clone, Copy, Debug, PartialEq, Eq, Hash)]
pub struct Address {
    pub bytes: [u8; 32],
}

impl View for Address {
    type V = Seq<u8>;

    open spec fn view(&self) -> Seq<u8> {
        self.bytes@
    }
}

impl Address {
    /// The identity with these bytes.
    pub fn new(bytes: [u8; 32]) -> (a: Address)
        ensures
            a@ == bytes@,
            a.bytes == bytes,
    {
        Address { bytes }
    }

    /// Whether two identities are the same, byte for byte.
    pub fn same(&self, other: &Address) -> (r: bool)
        ensures
            r == (self@ == other@),
            r == (*self == *other),
    {
        let mut i: usize = 0;
        while i < 32
            invariant
                i <= 32,
                forall|j: int| 0 <= j < i ==> self.bytes[j] == other.bytes[j],
            decreases 32 - i,
        {
            if self.bytes[i] != other.bytes[i] {
                assert(self@[i as int] != other@[i as int]);
                return false;
            }
            i += 1;
        }
        assert(self@ =~= other@);
        assert(self.bytes =~= other.bytes);
        true
    }
}

/// The namespace tag that separates reading records from any other account
/// derived for the same token identity.
pub const NAMESPACE_TAG: [u8; 13] = [116, 97, 114, 111, 116, 95, 114, 101, 97, 100, 105, 110, 103];

/// The seeds of a derivation, each taken as its bytes.
pub open spec fn seed_bytes(seeds: Seq<&[u8]>) -> Seq<Seq<u8>> {
    Seq::new(seeds.len(), |i: int| seeds[i]@)
}

/// The program-derived address for `seeds` under `program_id`, with its
/// bump seed, or `None` where no bump seed yields an address.
pub uninterp spec fn program_address(seeds: Seq<Seq<u8>>, program_id: Seq<u8>) -> Option<(Seq<u8>, u8)>;

/// Calls `Pubkey::try_find_program_address` of `anchor_lang` (re-exported
/// from `solana_program`). The call hashes the seeds, a candidate bump seed
/// and the program identity, and returns the first address that lies off the
/// curve: a function of its arguments alone, named `program_address` here.
/// Nothing is claimed about which address comes out.
#[verifier::external_body]
fn find_program_address(seeds: &[&[u8]], program_id: &[u8; 32]) -> (r: Option<([u8; 32], u8)>)
    ensures
        match r {
            Some((address, bump)) => program_address(seed_bytes(seeds@), program_id@) == Some(
                (address@, bump),
            ),
            None => program_address(seed_bytes(seeds@), program_id@) is None,
        },
{
    let program = anchor_lang::prelude::Pubkey::new_from_array(*program_id);
    match anchor_lang::prelude::Pubkey::try_find_program_address(seeds, &program) {
        Some((address, bump)) => Some((address.to_bytes(), bump)),
        None => None,
    }
}

/// The seeds from which the record address of a token identity is derived:
/// the namespace tag, then the identity.
pub open spec fn record_seeds(mint: Seq<u8>) -> Seq<Seq<u8>> {
    seq![NAMESPACE_TAG@, mint]
}

/// The record address of token identity `mint` under `program_id`, with
/// its bump seed.
pub open spec fn record_address_of(program_id: Seq<u8>, mint: Seq<u8>) -> Option<(Seq<u8>, u8)> {
    program_address(record_seeds(mint), program_id)
}

/// What a derivation gave, as mathematical values.
pub open spec fn derived_view(derived: Option<(Address, u8)>) -> Option<(Seq<u8>, u8)> {
    match derived {
        Some((address, bump)) => Some((address@, bump)),
        None => None,
    }
}

/// A token identity has one record address under a program: whatever two
/// derivations for it gave is the same.
pub proof fn lemma_record_address_is_stable(
    program_id: Address,
    mint: Address,
    first: Option<(Address, u8)>,
    second: Option<(Address, u8)>,
)
    requires
        derived_view(first) == record_address_of(program_id@, mint@),
        derived_view(second) == record_address_of(program_id@, mint@),
    ensures
        first == second,
{
    if first is Some {
        assert(first.unwrap().0.bytes =~= second.unwrap().0.bytes);
    }
}

/// Derives the address at which the reading of token identity `mint` is
/// stored. The address depends on the program and the identity only.
pub fn record_address(program_id: &Address, mint: &Address) -> (derived: Option<(Address, u8)>)
    ensures
        derived_view(derived) == record_address_of(program_id@, mint@),
{
    let tag: [u8; 13] = NAMESPACE_TAG;
    let seeds: [&[u8]; 2] = [tag.as_slice(), mint.bytes.as_slice()];
    let seeds: &[&[u8]] = seeds.as_slice();
    assert(seed_bytes(seeds@) =~= record_seeds(mint@));
    match find_program_address(seeds, &program_id.bytes) {
        Some((bytes, bump)) => Some((Address { bytes }, bump)),
        None => None,
    }
}

} // verus!
