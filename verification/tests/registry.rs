use shard_registry::address::DerivedAddress;
use shard_registry::error::ShardError;
use shard_registry::record::ShardRecord;
use shard_registry::registry::{register_shard, same_address, RegisterShard, Registry};

const OWNER: [u8; 32] = [0x42; 32];
const REQUESTER: [u8; 32] = [0x07; 32];

fn fingerprint_of(n: u32) -> [u8; 20] {
    let mut fingerprint = [0u8; 20];
    fingerprint[16..].copy_from_slice(&n.to_le_bytes());
    fingerprint[0] = 0x5A;
    fingerprint
}

fn address_of(fingerprint: &[u8; 20]) -> DerivedAddress {
    shard_registry::address::derive(fingerprint).unwrap()
}

fn assert_same_fields(left: &ShardRecord, right: &ShardRecord) {
    assert_eq!(left.owner_reference, right.owner_reference);
    assert_eq!(left.fingerprint, right.fingerprint);
    assert_eq!(left.repo, right.repo);
    assert_eq!(left.author, right.author);
    assert_eq!(left.verified, right.verified);
    assert_eq!(left.registered_at, right.registered_at);
    assert_eq!(left.disambiguator, right.disambiguator);
}

#[test]
fn round_trip_reads_back_what_was_registered() {
    let mut registry = Registry::new();
    let fingerprint = [0x11u8; 20];
    let handle = registry
        .register(
            OWNER,
            fingerprint,
            "acme/widgets".to_string(),
            "alice".to_string(),
            true,
            1_700_000_000,
            REQUESTER,
        )
        .unwrap();
    let derived = address_of(&fingerprint);
    assert_eq!(handle.address, derived.address);
    assert_eq!(handle.disambiguator, derived.disambiguator);

    let slot = registry.get(&derived.address).unwrap();
    assert_eq!(slot.address, derived.address);
    assert_eq!(slot.size, 182);
    assert_eq!(slot.funded_by, REQUESTER);
    let record = &slot.record;
    assert_eq!(record.owner_reference, OWNER);
    assert_eq!(record.fingerprint, fingerprint);
    assert_eq!(record.repo, "acme/widgets");
    assert_eq!(record.author, "alice");
    assert!(record.verified);
    assert_eq!(record.registered_at, 1_700_000_000);
    assert_eq!(record.disambiguator, derived.disambiguator);

    let found = registry.lookup(&fingerprint).unwrap();
    assert_same_fields(found, record);
}

#[test]
fn second_registration_is_already_registered_and_changes_nothing() {
    let mut registry = Registry::new();
    let fingerprint = [0x33u8; 20];
    registry
        .register(OWNER, fingerprint, "first/repo".to_string(), "ann".to_string(), true, 10, REQUESTER)
        .unwrap();
    let before = registry.lookup(&fingerprint).unwrap().clone();

    let second = registry.register(
        [0x99; 32],
        fingerprint,
        "second/repo".to_string(),
        "bob".to_string(),
        false,
        20,
        [0x08; 32],
    );
    assert_eq!(second.err(), Some(ShardError::AlreadyRegistered));

    let after = registry.lookup(&fingerprint).unwrap();
    assert_same_fields(after, &before);
    assert_eq!(after.repo, "first/repo");
    assert_eq!(after.author, "ann");
    assert_eq!(after.registered_at, 10);
    assert_eq!(after.owner_reference, OWNER);
    let slot = registry.get(&address_of(&fingerprint).address).unwrap();
    assert_eq!(slot.funded_by, REQUESTER);
}

#[test]
fn repo_of_65_bytes_is_refused_and_no_slot_is_created() {
    let mut registry = Registry::new();
    let fingerprint = [0x44u8; 20];
    let result =
        registry.register(OWNER, fingerprint, "r".repeat(65), "alice".to_string(), true, 1, REQUESTER);
    assert_eq!(result.err(), Some(ShardError::RepoTooLong));
    assert!(registry.get(&address_of(&fingerprint).address).is_none());
    assert!(registry.lookup(&fingerprint).is_none());

    // The address is still free: a valid registration claims it afterwards.
    let later =
        registry.register(OWNER, fingerprint, "r".repeat(64), "alice".to_string(), true, 2, REQUESTER);
    assert!(later.is_ok());
}

#[test]
fn author_of_41_bytes_is_refused_and_no_slot_is_created() {
    let mut registry = Registry::new();
    let fingerprint = [0x45u8; 20];
    let result =
        registry.register(OWNER, fingerprint, "acme".to_string(), "a".repeat(41), true, 1, REQUESTER);
    assert_eq!(result.err(), Some(ShardError::AuthorTooLong));
    assert!(registry.lookup(&fingerprint).is_none());
}

#[test]
fn texts_at_the_bounds_are_registered() {
    let mut registry = Registry::new();
    let fingerprint = [0x46u8; 20];
    let result =
        registry.register(OWNER, fingerprint, "r".repeat(64), "a".repeat(40), false, 3, REQUESTER);
    assert!(result.is_ok());
    let record = registry.lookup(&fingerprint).unwrap();
    assert_eq!(record.repo.len(), 64);
    assert_eq!(record.author.len(), 40);
    assert_eq!(record.footprint(), ShardRecord::SIZE);
}

#[test]
fn too_long_texts_are_refused_before_an_existing_record_is_noticed() {
    let mut registry = Registry::new();
    let fingerprint = [0x47u8; 20];
    registry
        .register(OWNER, fingerprint, "acme".to_string(), "alice".to_string(), true, 1, REQUESTER)
        .unwrap();
    let result =
        registry.register(OWNER, fingerprint, "r".repeat(65), "a".repeat(41), true, 2, REQUESTER);
    assert_eq!(result.err(), Some(ShardError::RepoTooLong));
}

#[test]
fn a_thousand_distinct_fingerprints_all_register() {
    let mut registry = Registry::new();
    let mut addresses: Vec<[u8; 32]> = Vec::new();
    for n in 0..1000u32 {
        let fingerprint = fingerprint_of(n);
        let handle = registry
            .register(OWNER, fingerprint, format!("repo/{}", n), format!("author{}", n), n % 2 == 0, n as i64, REQUESTER)
            .unwrap();
        addresses.push(handle.address);
    }
    let mut sorted = addresses.clone();
    sorted.sort();
    sorted.dedup();
    assert_eq!(sorted.len(), 1000);
    for n in 0..1000u32 {
        let record = registry.lookup(&fingerprint_of(n)).unwrap();
        assert_eq!(record.fingerprint, fingerprint_of(n));
        assert_eq!(record.repo, format!("repo/{}", n));
        assert_eq!(record.author, format!("author{}", n));
        assert_eq!(record.verified, n % 2 == 0);
        assert_eq!(record.registered_at, n as i64);
    }
}

#[test]
fn registrations_at_different_addresses_commute() {
    let one = fingerprint_of(1);
    let other = fingerprint_of(2);
    let mut forward = Registry::new();
    forward.register(OWNER, one, "a/a".to_string(), "a".to_string(), true, 1, REQUESTER).unwrap();
    forward.register(OWNER, other, "b/b".to_string(), "b".to_string(), false, 2, REQUESTER).unwrap();
    let mut backward = Registry::new();
    backward.register(OWNER, other, "b/b".to_string(), "b".to_string(), false, 2, REQUESTER).unwrap();
    backward.register(OWNER, one, "a/a".to_string(), "a".to_string(), true, 1, REQUESTER).unwrap();
    assert_same_fields(forward.lookup(&one).unwrap(), backward.lookup(&one).unwrap());
    assert_same_fields(forward.lookup(&other).unwrap(), backward.lookup(&other).unwrap());
}

#[test]
fn register_at_claims_the_given_address() {
    let mut registry = Registry::new();
    let target = DerivedAddress { address: [0xEE; 32], disambiguator: 251 };
    let handle = registry
        .register_at(target, OWNER, [1; 20], "acme".to_string(), "alice".to_string(), true, 9, REQUESTER)
        .unwrap();
    assert_eq!(handle.address, [0xEE; 32]);
    assert_eq!(handle.disambiguator, 251);
    let slot = registry.get(&[0xEE; 32]).unwrap();
    assert_eq!(slot.record.disambiguator, 251);
    assert_eq!(slot.record.fingerprint, [1; 20]);
    assert_eq!(slot.size, ShardRecord::SIZE);

    // Another fingerprint sent to the same address finds it taken.
    let clash = registry.register_at(
        target,
        OWNER,
        [2; 20],
        "other".to_string(),
        "bob".to_string(),
        false,
        10,
        REQUESTER,
    );
    assert_eq!(clash.err(), Some(ShardError::AlreadyRegistered));
    assert_eq!(registry.get(&[0xEE; 32]).unwrap().record.fingerprint, [1; 20]);
}

#[test]
fn register_at_checks_the_texts_first() {
    let mut registry = Registry::new();
    let target = DerivedAddress { address: [0xEF; 32], disambiguator: 255 };
    let result = registry.register_at(
        target,
        OWNER,
        [1; 20],
        "r".repeat(65),
        "alice".to_string(),
        true,
        9,
        REQUESTER,
    );
    assert_eq!(result.err(), Some(ShardError::RepoTooLong));
    assert!(registry.get(&[0xEF; 32]).is_none());
}

#[test]
fn create_at_claims_an_address_once() {
    let mut registry = Registry::new();
    let record = ShardRecord {
        owner_reference: OWNER,
        fingerprint: [3; 20],
        repo: "acme".to_string(),
        author: "alice".to_string(),
        verified: true,
        registered_at: 5,
        disambiguator: 253,
    };
    assert_eq!(registry.create_at([0xAB; 32], 182, REQUESTER, record.clone()), Ok(()));
    assert_eq!(
        registry.create_at([0xAB; 32], 182, REQUESTER, record),
        Err(ShardError::AlreadyRegistered)
    );
    assert!(registry.get(&[0xAC; 32]).is_none());
}

#[test]
fn an_empty_registry_holds_nothing() {
    let registry = Registry::new();
    assert!(registry.get(&[0; 32]).is_none());
    assert!(registry.lookup(&[0x11; 20]).is_none());
}

#[test]
fn register_shard_takes_owner_and_requester_from_the_context() {
    let mut registry = Registry::new();
    let context = RegisterShard { authority: [0x0A; 32], mint: [0x0B; 32] };
    let sha = [0x55u8; 20];
    let handle = register_shard(
        &mut registry,
        &context,
        sha,
        "acme/widgets".to_string(),
        "alice".to_string(),
        true,
        1234,
    )
    .unwrap();
    let slot = registry.get(&handle.address).unwrap();
    assert_eq!(slot.funded_by, [0x0A; 32]);
    assert_eq!(slot.record.owner_reference, [0x0B; 32]);
    assert_eq!(slot.record.fingerprint, sha);
    assert_eq!(slot.record.registered_at, 1234);
    assert_eq!(slot.record.disambiguator, handle.disambiguator);

    let again = register_shard(
        &mut registry,
        &context,
        sha,
        "acme/widgets".to_string(),
        "alice".to_string(),
        true,
        1235,
    );
    assert_eq!(again.err(), Some(ShardError::AlreadyRegistered));
}

#[test]
fn same_address_compares_all_bytes() {
    let left = [7u8; 32];
    let mut right = [7u8; 32];
    assert!(same_address(&left, &right));
    right[31] = 8;
    assert!(!same_address(&left, &right));
    right[31] = 7;
    right[0] = 6;
    assert!(!same_address(&left, &right));
}
