//! The registration service and the store of claimed slots.

use vstd::prelude::*;
use crate::address::{derived, DerivedAddress};
use crate::error::ShardError;
use crate::record::{validate, validation, RecordView, ShardRecord, RECORD_SIZE};

verus! {

/// A claimed region of storage with the record that fills it.
#[derive(Clone, Debug)]
pub struct Slot {
    pub address: [u8; 32],
    /// Bytes reserved when the slot was claimed.
    pub size: usize,
    /// The identity that the claim was attributed to.
    pub funded_by: [u8; 32],
    pub record: ShardRecord,
}

/// A slot as plain values; its address is the key it is stored under.
pub struct SlotView {
    pub size: nat,
    pub funded_by: Seq<u8>,
    pub record: RecordView,
}

impl View for Slot {
    type V = SlotView;

    open spec fn view(&self) -> SlotView {
        SlotView { size: self.size as nat, funded_by: self.funded_by@, record: self.record@ }
    }
}

/// Refers to a record that a registration created.
#[derive(Clone, Copy, Debug)]
pub struct RecordHandle {
    pub address: [u8; 32],
    pub disambiguator: u8,
}

/// The store as a map from address to slot.
pub type Store = Map<Seq<u8>, SlotView>;

/// The inputs of one registration as plain values.
pub struct Registration {
    pub owner_reference: Seq<u8>,
    pub fingerprint: Seq<u8>,
    pub repo: Seq<char>,
    pub author: Seq<char>,
    pub verified: bool,
    pub registered_at: i64,
    pub requester_identity: Seq<u8>,
}

/// The slot that a registration fills once `target` is claimed for it.
pub open spec fn slot_for(target: (Seq<u8>, u8), request: Registration) -> SlotView {
    SlotView {
        size: RECORD_SIZE as nat,
        funded_by: request.requester_identity,
        record: RecordView {
            owner_reference: request.owner_reference,
            fingerprint: request.fingerprint,
            repo: request.repo,
            author: request.author,
            verified: request.verified,
            registered_at: request.registered_at,
            disambiguator: target.1,
        },
    }
}

/// How a registration ends when the derivation gave `target`: the texts are
/// judged first, then the derivation, then the claim of the address.
pub open spec fn outcome_at(store: Store, target: Option<(Seq<u8>, u8)>, request: Registration)
    -> Result<(Seq<u8>, u8), ShardError> {
    match validation(request.repo, request.author) {
        Err(refusal) => Err(refusal),
        Ok(_) => match target {
            None => Err(ShardError::DerivationExhausted),
            Some(found) => if store.contains_key(found.0) {
                Err(ShardError::AlreadyRegistered)
            } else {
                Ok(found)
            },
        },
    }
}

/// The store after a registration for which the derivation gave `target`:
/// one slot more where it succeeds, the same store where it does not.
pub open spec fn store_after_at(store: Store, target: Option<(Seq<u8>, u8)>, request: Registration)
    -> Store {
    match outcome_at(store, target, request) {
        Ok(found) => store.insert(found.0, slot_for(found, request)),
        Err(_) => store,
    }
}

/// How a registration ends.
pub open spec fn outcome(store: Store, request: Registration) -> Result<(Seq<u8>, u8), ShardError> {
    outcome_at(store, derived(request.fingerprint), request)
}

/// The store after a registration.
pub open spec fn store_after(store: Store, request: Registration) -> Store {
    store_after_at(store, derived(request.fingerprint), request)
}

/// What holds of every slot of a store: its record is within the bounds and
/// needs no more bytes than the slot reserved.
pub open spec fn store_invariant(store: Store) -> bool {
    forall|address: Seq<u8>| #[trigger]
        store.contains_key(address) ==> store[address].record.within_bounds()
            && store[address].record.footprint() <= store[address].size
}

/// Whether `result` is the answer that belongs to `expected`.
pub open spec fn answers(
    result: Result<RecordHandle, ShardError>,
    expected: Result<(Seq<u8>, u8), ShardError>,
) -> bool {
    match expected {
        Ok(found) => result is Ok && result->Ok_0.address@ == found.0
            && result->Ok_0.disambiguator == found.1,
        Err(refusal) => result == Err::<RecordHandle, ShardError>(refusal),
    }
}

/// The inputs of a registration, gathered.
pub open spec fn registration(
    owner_reference: Seq<u8>,
    fingerprint: Seq<u8>,
    repo: Seq<char>,
    author: Seq<char>,
    verified: bool,
    registered_at: i64,
    requester_identity: Seq<u8>,
) -> Registration {
    Registration {
        owner_reference,
        fingerprint,
        repo,
        author,
        verified,
        registered_at,
        requester_identity,
    }
}

/// Whether two addresses hold the same bytes.
pub fn same_address(left: &[u8; 32], right: &[u8; 32]) -> (same: bool)
    ensures
        same == (left@ == right@),
{
    let mut i: usize = 0;
    while i < 32
        invariant
            i <= 32,
            forall|j: int| 0 <= j < i ==> left@[j] == right@[j],
        decreases 32 - i,
    {
        if left[i] != right[i] {
            return false;
        }
        i += 1;
    }
    assert(left@ =~= right@);
    true
}

/// The store of claimed slots: at most one slot per address, none ever
/// changed or removed.
pub struct Registry {
    slots: Vec<Slot>,
    model: Ghost<Store>,
}

impl View for Registry {
    type V = Store;

    closed spec fn view(&self) -> Store {
        self.model@
    }
}

impl Registry {
    /// The slots in the vector are the slots of the map, and the store's
    /// invariant holds.
    pub closed spec fn wf(&self) -> bool {
        &&& forall|i: int|
            0 <= i < self.slots@.len() ==> self.model@.contains_key(
                (#[trigger] self.slots@[i]).address@,
            ) && self.model@[self.slots@[i].address@] == self.slots@[i]@
        &&& forall|address: Seq<u8>| #[trigger]
            self.model@.contains_key(address) ==> exists|i: int|
                0 <= i < self.slots@.len() && (#[trigger] self.slots@[i]).address@ == address
        &&& store_invariant(self.model@)
    }

    /// Every record in a well-formed registry is within the bounds and fits
    /// the bytes reserved for it.
    pub proof fn stored_records_fit(&self)
        requires
            self.wf(),
        ensures
            store_invariant(self@),
    {
    }

    /// An empty registry.
    pub fn new() -> (registry: Registry)
        ensures
            registry.wf(),
            registry@ == Map::<Seq<u8>, SlotView>::empty(),
    {
        Registry { slots: Vec::new(), model: Ghost(Map::empty()) }
    }

    fn position(&self, address: &[u8; 32]) -> (found: Option<usize>)
        requires
            self.wf(),
        ensures
            match found {
                Some(i) => i < self.slots@.len() && self.slots@[i as int].address@ == address@,
                None => !self@.contains_key(address@),
            },
    {
        let mut i: usize = 0;
        while i < self.slots.len()
            invariant
                i <= self.slots@.len(),
                forall|j: int| 0 <= j < i ==> (#[trigger] self.slots@[j]).address@ != address@,
            decreases self.slots@.len() - i,
        {
            if same_address(&self.slots[i].address, address) {
                return Some(i);
            }
            i += 1;
        }
        None
    }

    /// The slot at `address`, if one was claimed there.
    pub fn get(&self, address: &[u8; 32]) -> (slot: Option<&Slot>)
        requires
            self.wf(),
        ensures
            match slot {
                Some(claimed) => self@.contains_key(address@) && self@[address@] == claimed@
                    && claimed.address@ == address@,
                None => !self@.contains_key(address@),
            },
    {
        match self.position(address) {
            Some(i) => Some(&self.slots[i]),
            None => None,
        }
    }

    /// The record stored for `fingerprint`: the one at the address derived
    /// from it, if that address was claimed.
    pub fn lookup(&self, fingerprint: &[u8; 20]) -> (record: Option<&ShardRecord>)
        requires
            self.wf(),
        ensures
            match derived(fingerprint@) {
                Some(found) if self@.contains_key(found.0) => record is Some
                    && record->Some_0@ == self@[found.0].record,
                _ => record is None,
            },
    {
        match crate::address::derive(fingerprint) {
            Ok(target) => match self.get(&target.address) {
                Some(slot) => Some(&slot.record),
                None => None,
            },
            Err(_) => None,
        }
    }

    /// Claims the slot at `address` with `size` bytes reserved and fills it
    /// with `record`, or fails with `AlreadyRegistered` and changes nothing
    /// where a slot is there already. One step: no caller sees a claimed
    /// slot without its record.
    pub fn create_at(
        &mut self,
        address: [u8; 32],
        size: usize,
        funded_by: [u8; 32],
        record: ShardRecord,
    ) -> (result: Result<(), ShardError>)
        requires
            old(self).wf(),
            record@.within_bounds(),
            record@.footprint() <= size,
        ensures
            final(self).wf(),
            old(self)@.contains_key(address@) ==> result == Err::<(), ShardError>(
                ShardError::AlreadyRegistered,
            ) && final(self)@ == old(self)@,
            !old(self)@.contains_key(address@) ==> result is Ok && final(self)@ == old(self)@.insert(
                address@,
                (SlotView { size: size as nat, funded_by: funded_by@, record: record@ }),
            ),
    {
        if self.position(&address).is_some() {
            return Err(ShardError::AlreadyRegistered);
        }
        let slot = Slot { address, size, funded_by, record };
        let ghost before = self.slots@;
        let ghost claimed = slot@;
        self.slots.push(slot);
        self.model = Ghost(self.model@.insert(address@, claimed));
        proof {
            assert forall|i: int| 0 <= i < self.slots@.len() implies self.model@.contains_key(
                (#[trigger] self.slots@[i]).address@,
            ) && self.model@[self.slots@[i].address@] == self.slots@[i]@ by {
                if i < before.len() {
                    assert(self.slots@[i] == before[i]);
                }
            }
            assert forall|other: Seq<u8>| #[trigger]
                self.model@.contains_key(other) implies exists|i: int|
                0 <= i < self.slots@.len() && (#[trigger] self.slots@[i]).address@ == other by {
                if other == address@ {
                    assert(self.slots@[before.len() as int].address@ == other);
                } else {
                    let i = choose|i: int|
                        0 <= i < before.len() && (#[trigger] before[i]).address@ == other;
                    assert(self.slots@[i] == before[i]);
                }
            }
        }
        Ok(())
    }

    /// Registers a record at an address that was derived beforehand: checks
    /// the texts, claims the address with the fixed record size, and fills
    /// the slot. Either all of it happens or nothing does.
    pub fn register_at(
        &mut self,
        target: DerivedAddress,
        owner_reference: [u8; 32],
        fingerprint: [u8; 20],
        repo: String,
        author: String,
        verified: bool,
        registered_at: i64,
        requester_identity: [u8; 32],
    ) -> (result: Result<RecordHandle, ShardError>)
        requires
            old(self).wf(),
        ensures
            final(self).wf(),
            answers(
                result,
                outcome_at(
                    old(self)@,
                    Some((target.address@, target.disambiguator)),
                    registration(
                        owner_reference@,
                        fingerprint@,
                        repo@,
                        author@,
                        verified,
                        registered_at,
                        requester_identity@,
                    ),
                ),
            ),
            final(self)@ == store_after_at(
                old(self)@,
                Some((target.address@, target.disambiguator)),
                registration(
                    owner_reference@,
                    fingerprint@,
                    repo@,
                    author@,
                    verified,
                    registered_at,
                    requester_identity@,
                ),
            ),
    {
        match validate(repo.as_str(), author.as_str()) {
            Err(refusal) => {
                return Err(refusal);
            },
            Ok(_) => {},
        }
        let record = ShardRecord {
            owner_reference,
            fingerprint,
            repo,
            author,
            verified,
            registered_at,
            disambiguator: target.disambiguator,
        };
        match self.create_at(target.address, RECORD_SIZE, requester_identity, record) {
            Err(refusal) => Err(refusal),
            Ok(_) => Ok(
                RecordHandle { address: target.address, disambiguator: target.disambiguator },
            ),
        }
    }

    /// Registers a record for `fingerprint`: checks the texts, derives the
    /// address, claims it and fills the slot. A fingerprint is registered at
    /// most once; every refusal leaves the registry as it was.
    pub fn register(
        &mut self,
        owner_reference: [u8; 32],
        fingerprint: [u8; 20],
        repo: String,
        author: String,
        verified: bool,
        registered_at: i64,
        requester_identity: [u8; 32],
    ) -> (result: Result<RecordHandle, ShardError>)
        requires
            old(self).wf(),
        ensures
            final(self).wf(),
            answers(
                result,
                outcome(
                    old(self)@,
                    registration(
                        owner_reference@,
                        fingerprint@,
                        repo@,
                        author@,
                        verified,
                        registered_at,
                        requester_identity@,
                    ),
                ),
            ),
            final(self)@ == store_after(
                old(self)@,
                registration(
                    owner_reference@,
                    fingerprint@,
                    repo@,
                    author@,
                    verified,
                    registered_at,
                    requester_identity@,
                ),
            ),
    {
        match validate(repo.as_str(), author.as_str()) {
            Err(refusal) => {
                return Err(refusal);
            },
            Ok(_) => {},
        }
        match crate::address::derive(&fingerprint) {
            Err(refusal) => Err(refusal),
            Ok(target) => self.register_at(
                target,
                owner_reference,
                fingerprint,
                repo,
                author,
                verified,
                registered_at,
                requester_identity,
            ),
        }
    }
}

/// What the surroundings supply to a registration besides its arguments.
#[derive(Clone, Copy, Debug)]
pub struct RegisterShard {
    /// The authenticated requester, to whom the claim is attributed.
    pub authority: [u8; 32],
    /// The owner reference that the record will carry, taken as given.
    pub mint: [u8; 32],
}

/// The entry point: registers `sha` with its metadata in `registry`, for
/// the requester and owner reference that `context` supplies, at the time
/// `now` read from the clock.
pub fn register_shard(
    registry: &mut Registry,
    context: &RegisterShard,
    sha: [u8; 20],
    repo: String,
    author: String,
    github_verified: bool,
    now: i64,
) -> (result: Result<RecordHandle, ShardError>)
    requires
        old(registry).wf(),
    ensures
        final(registry).wf(),
        answers(
            result,
            outcome(
                old(registry)@,
                registration(
                    context.mint@,
                    sha@,
                    repo@,
                    author@,
                    github_verified,
                    now,
                    context.authority@,
                ),
            ),
        ),
        final(registry)@ == store_after(
            old(registry)@,
            registration(
                context.mint@,
                sha@,
                repo@,
                author@,
                github_verified,
                now,
                context.authority@,
            ),
        ),
{
    registry.register(
        context.mint,
        sha,
        repo,
        author,
        github_verified,
        now,
        context.authority,
    )
}

} // verus!
