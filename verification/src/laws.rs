//! What holds of every registration, stated over the store as a map.

use vstd::prelude::*;
use crate::address::derived;
use crate::error::ShardError;
use crate::record::{byte_len, validation, MAX_AUTHOR_LEN, MAX_REPO_LEN};
use crate::registry::{
    outcome, slot_for, store_after, store_invariant, Registration, Store,
};

verus! {

/// Write-once: after a fingerprint was registered, no later registration of
/// it succeeds. One with acceptable texts is refused as `AlreadyRegistered`.
/// The store stays as the first registration left it, and the record in it
/// is the one that the first registration wrote.
pub proof fn write_once(store: Store, first: Registration, second: Registration)
    requires
        outcome(store, first) is Ok,
        second.fingerprint == first.fingerprint,
    ensures
        outcome(store_after(store, first), second) is Err,
        validation(second.repo, second.author) is Ok ==> outcome(
            store_after(store, first),
            second,
        ) == Err::<(Seq<u8>, u8), ShardError>(ShardError::AlreadyRegistered),
        store_after(store_after(store, first), second) == store_after(store, first),
        store_after(store_after(store, first), second)[derived(first.fingerprint)->Some_0.0]
            == slot_for(derived(first.fingerprint)->Some_0, first),
{
}

/// Validation precedes side effects: a registration whose texts are too
/// long is refused for that reason, whatever the store holds, and the store
/// is left as it was. The repository name is judged before the author name.
pub proof fn validation_precedes_claim(store: Store, request: Registration)
    ensures
        byte_len(request.repo) > MAX_REPO_LEN ==> outcome(store, request) == Err::<
            (Seq<u8>, u8),
            ShardError,
        >(ShardError::RepoTooLong),
        byte_len(request.repo) <= MAX_REPO_LEN && byte_len(request.author) > MAX_AUTHOR_LEN
            ==> outcome(store, request) == Err::<(Seq<u8>, u8), ShardError>(
            ShardError::AuthorTooLong,
        ),
        validation(request.repo, request.author) is Err ==> store_after(store, request) == store,
{
}

/// Every refusal leaves the store as it was, and a registration succeeds
/// exactly when the texts are within their bounds, an address was derived
/// and nothing is stored at it.
pub proof fn all_or_nothing(store: Store, request: Registration)
    ensures
        outcome(store, request) is Err ==> store_after(store, request) == store,
        outcome(store, request) is Ok <==> byte_len(request.repo) <= MAX_REPO_LEN && byte_len(
            request.author,
        ) <= MAX_AUTHOR_LEN && derived(request.fingerprint) is Some && !store.contains_key(
            derived(request.fingerprint)->Some_0.0,
        ),
{
}

/// Round trip: after a successful registration the store holds, at the
/// address derived from the fingerprint, a record with exactly the values
/// given and the disambiguator that the derivation found.
pub proof fn round_trip(store: Store, request: Registration)
    requires
        outcome(store, request) is Ok,
    ensures
        derived(request.fingerprint) is Some,
        outcome(store, request) == Ok::<(Seq<u8>, u8), ShardError>(
            derived(request.fingerprint)->Some_0,
        ),
        store_after(store, request).contains_key(derived(request.fingerprint)->Some_0.0),
        ({
            let found = derived(request.fingerprint)->Some_0;
            let record = store_after(store, request)[found.0].record;
            &&& record.owner_reference == request.owner_reference
            &&& record.fingerprint == request.fingerprint
            &&& record.repo == request.repo
            &&& record.author == request.author
            &&& record.verified == request.verified
            &&& record.registered_at == request.registered_at
            &&& record.disambiguator == found.1
        }),
{
}

/// A registration touches one address only: every other address is claimed
/// after it exactly if it was before, with the same slot.
pub proof fn other_slots_untouched(store: Store, request: Registration, other: Seq<u8>)
    requires
        derived(request.fingerprint) is Some ==> other != derived(request.fingerprint)->Some_0.0,
    ensures
        store_after(store, request).contains_key(other) == store.contains_key(other),
        store.contains_key(other) ==> store_after(store, request)[other] == store[other],
{
}

/// Independence: two registrations whose fingerprints derive different
/// addresses do not interfere. Each ends as it would have without the
/// other, and the store that both leave is the same in either order.
pub proof fn independent_registrations(store: Store, one: Registration, other: Registration)
    requires
        derived(one.fingerprint) is Some,
        derived(other.fingerprint) is Some,
        derived(one.fingerprint)->Some_0.0 != derived(other.fingerprint)->Some_0.0,
    ensures
        outcome(store_after(store, one), other) == outcome(store, other),
        outcome(store_after(store, other), one) == outcome(store, one),
        store_after(store_after(store, one), other) == store_after(
            store_after(store, other),
            one,
        ),
{
    assert(store_after(store_after(store, one), other) =~= store_after(
        store_after(store, other),
        one,
    ));
}

/// Whether every slot of the store lies at the address derived from the
/// fingerprint of its record, and carries the disambiguator found with it.
pub open spec fn addresses_derived(store: Store) -> bool {
    forall|address: Seq<u8>| #[trigger]
        store.contains_key(address) ==> derived(store[address].record.fingerprint) == Some(
            (address, store[address].record.disambiguator),
        )
}

/// The fingerprint of a record is the key its address was derived from: a
/// store in which that holds of every slot keeps it through any
/// registration.
pub proof fn registration_keeps_addresses_derived(store: Store, request: Registration)
    requires
        addresses_derived(store),
    ensures
        addresses_derived(store_after(store, request)),
{
}

/// One record per fingerprint: in a store whose slots lie at their derived
/// addresses, two slots that carry the same fingerprint are the same slot.
pub proof fn one_record_per_fingerprint(store: Store, one: Seq<u8>, other: Seq<u8>)
    requires
        addresses_derived(store),
        store.contains_key(one),
        store.contains_key(other),
        store[one].record.fingerprint == store[other].record.fingerprint,
    ensures
        one == other,
{
}

/// No registration ever breaks the bounds: if every record in the store is
/// within them and fits its slot, the same holds after any registration.
pub proof fn registration_keeps_bounds(store: Store, request: Registration)
    requires
        store_invariant(store),
        request.owner_reference.len() == 32,
        request.fingerprint.len() == 20,
    ensures
        store_invariant(store_after(store, request)),
{
}

} // verus!
