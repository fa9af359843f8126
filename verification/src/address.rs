//! The address deriver: from a fingerprint to the storage address of its
//! record and the disambiguator that made the address usable.

use vstd::prelude::*;
use anchor_lang::prelude::Pubkey;
use crate::error::ShardError;

verus! {

/// Length of a fingerprint in bytes.
pub const FINGERPRINT_LEN: usize = 20;

/// Length of a storage address in bytes.
pub const ADDRESS_LEN: usize = 32;

/// The namespace tag of this registry: the bytes of `shard`.
pub const NAMESPACE: [u8; 5] = [115, 104, 97, 114, 100];

/// The identity of the program whose address space the records live in.
pub const PROGRAM_ID: [u8; 32] = [
    120, 125, 106, 115, 96, 102, 119, 10, 111, 20, 28, 118, 17, 245, 212, 173,
    108, 119, 103, 238, 100, 239, 213, 123, 44, 75, 33, 214, 127, 84, 208, 179,
];

/// A derived storage address with the disambiguator that was found for it.
#[derive(Clone, Copy, Debug)]
pub struct DerivedAddress {
    pub address: [u8; 32],
    pub disambiguator: u8,
}

/// The program-derived address of the seeds `namespace` and `key` under
/// `program_id`, with its bump seed; `None` where no bump seed gives an
/// address off the curve. It is a function of the three byte strings alone.
pub uninterp spec fn program_address(namespace: Seq<u8>, key: Seq<u8>, program_id: Seq<u8>) -> Option<(Seq<u8>, u8)>;

/// Calls `Pubkey::try_find_program_address` with the two seeds `namespace`
/// and `key`. Trusted: the result is the program-derived address of those
/// arguments, as a pair of the address bytes and the bump seed, and `None`
/// exactly where the search finds none.
#[verifier::external_body]
fn find_program_address(namespace: &[u8], key: &[u8], program_id: &[u8; 32]) -> (found: Option<([u8; 32], u8)>)
    ensures
        found matches Some(pair) ==> program_address(namespace@, key@, program_id@) == Some((pair.0@, pair.1)),
        found is None ==> program_address(namespace@, key@, program_id@) is None,
{
    let program = Pubkey::new_from_array(*program_id);
    match Pubkey::try_find_program_address(&[namespace, key], &program) {
        Some((address, bump)) => Some((address.to_bytes(), bump)),
        None => None,
    }
}

/// The address and disambiguator that belong to a fingerprint, if any.
pub open spec fn derived(fingerprint: Seq<u8>) -> Option<(Seq<u8>, u8)> {
    program_address(NAMESPACE@, fingerprint, PROGRAM_ID@)
}

/// What the deriver answers for a given outcome of the search.
pub open spec fn derivation(found: Option<(Seq<u8>, u8)>, answer: Result<DerivedAddress, ShardError>) -> bool {
    match found {
        Some(pair) => answer is Ok && answer->Ok_0.address@ == pair.0
            && answer->Ok_0.disambiguator == pair.1,
        None => answer == Err::<DerivedAddress, ShardError>(ShardError::DerivationExhausted),
    }
}

/// Turns the outcome of the search into the deriver's answer: the address
/// found, or `DerivationExhausted` where the search space held none.
pub fn address_or_exhausted(found: Option<([u8; 32], u8)>) -> (answer: Result<DerivedAddress, ShardError>)
    ensures
        match found {
            Some(pair) => answer is Ok && answer->Ok_0.address == pair.0
                && answer->Ok_0.disambiguator == pair.1,
            None => answer == Err::<DerivedAddress, ShardError>(ShardError::DerivationExhausted),
        },
{
    match found {
        Some(pair) => Ok(DerivedAddress { address: pair.0, disambiguator: pair.1 }),
        None => Err(ShardError::DerivationExhausted),
    }
}

/// Derives the storage address of `fingerprint`. Total: it answers for
/// every fingerprint, with `DerivationExhausted` where no disambiguator
/// qualifies, and the answer depends on the fingerprint alone.
pub fn derive(fingerprint: &[u8; 20]) -> (answer: Result<DerivedAddress, ShardError>)
    ensures
        derivation(derived(fingerprint@), answer),
{
    let found = find_program_address(&NAMESPACE, fingerprint, &PROGRAM_ID);
    address_or_exhausted(found)
}

/// Determinism: any two answers of the deriver to one fingerprint are the
/// same address with the same disambiguator, or both the same error.
pub proof fn derive_is_deterministic(
    fingerprint: Seq<u8>,
    first: Result<DerivedAddress, ShardError>,
    second: Result<DerivedAddress, ShardError>,
)
    requires
        derivation(derived(fingerprint), first),
        derivation(derived(fingerprint), second),
    ensures
        first == second,
{
    if first is Ok {
        assert(first->Ok_0.address =~= second->Ok_0.address);
    }
}

} // verus!
