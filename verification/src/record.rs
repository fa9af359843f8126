//! The persisted record and its fixed footprint.

use vstd::prelude::*;
use vstd::bytes::{
    lemma_auto_spec_u32_to_from_le_bytes, lemma_auto_spec_u64_to_from_le_bytes,
    spec_u32_from_le_bytes, spec_u32_to_le_bytes, spec_u64_from_le_bytes, spec_u64_to_le_bytes,
    u32_from_le_bytes, u32_to_le_bytes, u64_from_le_bytes, u64_to_le_bytes,
};
use vstd::slice::{slice_subrange, slice_to_vec};
use vstd::utf8::{encode_utf8, encode_utf8_decode_utf8, encode_utf8_valid_utf8, valid_utf8};
use crate::error::ShardError;

verus! {

/// Most bytes a repository name may have.
pub const MAX_REPO_LEN: usize = 64;

/// Most bytes an author name may have.
pub const MAX_AUTHOR_LEN: usize = 40;

/// Bytes reserved for every record, whatever the lengths of its texts:
/// an 8-byte header, the fixed fields, and both texts at their greatest
/// length, each behind a 4-byte length.
pub const RECORD_SIZE: usize = 182;

/// The header of a stored record: the first eight bytes of the SHA-256
/// digest of `account:ShardRecord`.
pub const RECORD_DISCRIMINATOR: [u8; 8] = [18, 203, 234, 23, 24, 120, 200, 121];

/// The number of bytes that a text takes in storage (its UTF-8 encoding).
pub open spec fn byte_len(text: Seq<char>) -> nat {
    encode_utf8(text).len()
}

/// The one record that is stored for a fingerprint.
#[derive(Clone, Debug)]
pub struct ShardRecord {
    /// Opaque handle supplied by the caller, stored as given.
    pub owner_reference: [u8; 32],
    /// The key from which the record's address was derived.
    pub fingerprint: [u8; 20],
    pub repo: String,
    pub author: String,
    /// Asserted by the caller; nothing here checks it.
    pub verified: bool,
    pub registered_at: i64,
    /// The disambiguator that the derivation found.
    pub disambiguator: u8,
}

/// A record as plain values.
pub struct RecordView {
    pub owner_reference: Seq<u8>,
    pub fingerprint: Seq<u8>,
    pub repo: Seq<char>,
    pub author: Seq<char>,
    pub verified: bool,
    pub registered_at: i64,
    pub disambiguator: u8,
}

impl RecordView {
    /// The bounds that every stored record keeps.
    pub open spec fn within_bounds(self) -> bool {
        &&& self.owner_reference.len() == 32
        &&& self.fingerprint.len() == 20
        &&& byte_len(self.repo) <= MAX_REPO_LEN
        &&& byte_len(self.author) <= MAX_AUTHOR_LEN
    }

    /// The bytes that the record needs in storage: header, owner, fingerprint,
    /// both texts behind their lengths, flag, timestamp, disambiguator.
    pub open spec fn footprint(self) -> nat {
        8 + 32 + 20 + (4 + byte_len(self.repo)) + (4 + byte_len(self.author)) + 1 + 8 + 1
    }

    /// The stored form of the record: the header, then the fields in order.
    /// A text is its length in bytes as four little-endian bytes and then its
    /// UTF-8 encoding; the flag is one byte, 1 for true; the timestamp is its
    /// eight bytes in two's complement, little-endian.
    pub open spec fn layout(self) -> Seq<u8> {
        RECORD_DISCRIMINATOR@ + self.owner_reference + self.fingerprint + spec_u32_to_le_bytes(
            byte_len(self.repo) as u32,
        ) + encode_utf8(self.repo) + spec_u32_to_le_bytes(byte_len(self.author) as u32)
            + encode_utf8(self.author) + seq![if self.verified { 1u8 } else { 0u8 }]
            + spec_u64_to_le_bytes(self.registered_at as u64) + seq![self.disambiguator]
    }
}

impl RecordView {
    /// Whether `bytes` begin with the stored form of this record, the
    /// record being within its bounds. What follows the record is not read.
    pub open spec fn stored_in(self, bytes: Seq<u8>) -> bool {
        self.within_bounds() && self.layout().is_prefix_of(bytes)
    }
}

impl View for ShardRecord {
    type V = RecordView;

    open spec fn view(&self) -> RecordView {
        RecordView {
            owner_reference: self.owner_reference@,
            fingerprint: self.fingerprint@,
            repo: self.repo@,
            author: self.author@,
            verified: self.verified,
            registered_at: self.registered_at,
            disambiguator: self.disambiguator,
        }
    }
}

impl ShardRecord {
    /// Bytes reserved for every record.
    pub const SIZE: usize = RECORD_SIZE;

    /// The bytes that this record needs in storage.
    pub fn footprint(&self) -> (bytes: usize)
        requires
            self@.within_bounds(),
        ensures
            bytes == self@.footprint(),
            bytes <= RECORD_SIZE,
    {
        let repo_len: usize = self.repo.as_str().as_bytes().len();
        let author_len: usize = self.author.as_str().as_bytes().len();
        8 + 32 + 20 + (4 + repo_len) + (4 + author_len) + 1 + 8 + 1
    }

    /// The stored form of this record, byte for byte. It is as long as the
    /// record's footprint, so it fits the bytes reserved for it.
    pub fn encode(&self) -> (bytes: Vec<u8>)
        requires
            self@.within_bounds(),
        ensures
            bytes@ == self@.layout(),
            bytes@.len() == self@.footprint(),
            bytes@.len() <= RECORD_SIZE,
    {
        let repo = self.repo.as_str().as_bytes();
        let author = self.author.as_str().as_bytes();
        let repo_len = u32_to_le_bytes(repo.len() as u32);
        let author_len = u32_to_le_bytes(author.len() as u32);
        let registered_at = u64_to_le_bytes(self.registered_at as u64);
        let mut out: Vec<u8> = Vec::new();
        append(&mut out, RECORD_DISCRIMINATOR.as_slice());
        append(&mut out, self.owner_reference.as_slice());
        append(&mut out, self.fingerprint.as_slice());
        append(&mut out, repo_len.as_slice());
        append(&mut out, repo);
        append(&mut out, author_len.as_slice());
        append(&mut out, author);
        out.push(if self.verified { 1 } else { 0 });
        append(&mut out, registered_at.as_slice());
        out.push(self.disambiguator);
        proof {
            lemma_auto_spec_u32_to_from_le_bytes();
            lemma_auto_spec_u64_to_from_le_bytes();
            assert(out@ =~= self@.layout());
        }
        out
    }

    /// Reads the record that `bytes` begin with. There is one exactly when
    /// the bytes begin with the stored form of a record within its bounds;
    /// bytes after the record, such as the rest of a slot, are not read.
    pub fn decode(bytes: &[u8]) -> (record: Option<ShardRecord>)
        ensures
            match record {
                Some(found) => found@.stored_in(bytes@),
                None => forall|stored: RecordView| !#[trigger] stored.stored_in(bytes@),
            },
    {
        proof {
            lemma_auto_spec_u32_to_from_le_bytes();
            lemma_auto_spec_u64_to_from_le_bytes();
            assert forall|stored: RecordView| #[trigger] stored.stored_in(bytes@) implies ({
                let r = byte_len(stored.repo) as int;
                let a = byte_len(stored.author) as int;
                &&& r <= 64 && a <= 40
                &&& bytes@.len() >= 78 + r + a
                &&& bytes@.subrange(0, 8) == RECORD_DISCRIMINATOR@
                &&& spec_u32_from_le_bytes(bytes@.subrange(60, 64)) == r
                &&& valid_utf8(bytes@.subrange(64, 64 + r))
                &&& spec_u32_from_le_bytes(bytes@.subrange(64 + r, 68 + r)) == a
                &&& valid_utf8(bytes@.subrange(68 + r, 68 + r + a))
                &&& bytes@[68 + r + a] <= 1
            }) by {
                stored_parts(stored, bytes@);
            }
        }
        let n: usize = bytes.len();
        if n < 78 {
            return None;
        }
        if !starts_with_header(bytes) {
            return None;
        }
        let owner_reference = owner_at(bytes, 8);
        let fingerprint = fingerprint_at(bytes, 40);
        let repo_len: u32 = u32_from_le_bytes(slice_subrange(bytes, 60, 64));
        if repo_len > 64 || n - 78 < repo_len as usize {
            return None;
        }
        let r: usize = repo_len as usize;
        let repo = match text_at(bytes, 64, r) {
            Some(text) => text,
            None => {
                return None;
            },
        };
        let author_len: u32 = u32_from_le_bytes(slice_subrange(bytes, 64 + r, 68 + r));
        if author_len > 40 || n - 78 - r < author_len as usize {
            return None;
        }
        let a: usize = author_len as usize;
        let author = match text_at(bytes, 68 + r, a) {
            Some(text) => text,
            None => {
                return None;
            },
        };
        let flag: u8 = bytes[68 + r + a];
        if flag > 1 {
            return None;
        }
        let seconds: u64 = u64_from_le_bytes(slice_subrange(bytes, 69 + r + a, 77 + r + a));
        let registered_at: i64 = seconds as i64;
        let disambiguator: u8 = bytes[77 + r + a];
        let found = ShardRecord {
            owner_reference,
            fingerprint,
            repo,
            author,
            verified: flag == 1,
            registered_at,
            disambiguator,
        };
        proof {
            assert(registered_at as u64 == seconds) by (bit_vector)
                requires
                    registered_at == seconds as i64,
            ;
            assert(byte_len(found@.repo) == r);
            assert(byte_len(found@.author) == a);
            assert(found@.layout() =~= bytes@.subrange(0, 78 + r + a));
        }
        Some(found)
    }
}

/// Appends `bytes` to `out`.
fn append(out: &mut Vec<u8>, bytes: &[u8])
    ensures
        final(out)@ == old(out)@ + bytes@,
{
    let ghost before = out@;
    let mut i: usize = 0;
    while i < bytes.len()
        invariant
            i <= bytes@.len(),
            out@ == before + bytes@.subrange(0, i as int),
        decreases bytes@.len() - i,
    {
        out.push(bytes[i]);
        i += 1;
        assert(out@ =~= before + bytes@.subrange(0, i as int));
    }
    assert(bytes@.subrange(0, bytes@.len() as int) =~= bytes@);
}

/// Calls `String::from_utf8`. Trusted: the text comes back exactly when the
/// bytes are valid UTF-8, and its encoding is then those bytes.
#[verifier::external_body]
fn text_from_utf8(bytes: Vec<u8>) -> (text: Option<String>)
    ensures
        text is Some <==> valid_utf8(bytes@),
        text matches Some(decoded) ==> encode_utf8(decoded@) == bytes@,
{
    String::from_utf8(bytes).ok()
}

/// The text encoded in the `len` bytes from `at`, if they are valid UTF-8.
fn text_at(bytes: &[u8], at: usize, len: usize) -> (text: Option<String>)
    requires
        at + len <= bytes@.len(),
    ensures
        text is Some <==> valid_utf8(bytes@.subrange(at as int, at + len)),
        text matches Some(decoded) ==> encode_utf8(decoded@) == bytes@.subrange(
            at as int,
            at + len,
        ),
{
    let n: usize = bytes.len();
    assert(at + len <= n);
    text_from_utf8(slice_to_vec(slice_subrange(bytes, at, at + len)))
}

/// Whether `bytes` begin with the header of a stored record.
fn starts_with_header(bytes: &[u8]) -> (found: bool)
    requires
        bytes@.len() >= 8,
    ensures
        found == (bytes@.subrange(0, 8) == RECORD_DISCRIMINATOR@),
{
    let mut i: usize = 0;
    while i < 8
        invariant
            i <= 8,
            bytes@.len() >= 8,
            forall|j: int| 0 <= j < i ==> bytes@[j] == RECORD_DISCRIMINATOR@[j],
        decreases 8 - i,
    {
        if bytes[i] != RECORD_DISCRIMINATOR[i] {
            assert(bytes@.subrange(0, 8)[i as int] != RECORD_DISCRIMINATOR@[i as int]);
            return false;
        }
        i += 1;
    }
    assert(bytes@.subrange(0, 8) =~= RECORD_DISCRIMINATOR@);
    true
}

/// The 32 bytes from `at`.
fn owner_at(bytes: &[u8], at: usize) -> (out: [u8; 32])
    requires
        at + 32 <= bytes@.len(),
    ensures
        out@ == bytes@.subrange(at as int, at + 32),
{
    let n: usize = bytes.len();
    let mut out = [0u8; 32];
    let mut i: usize = 0;
    while i < 32
        invariant
            i <= 32,
            at + 32 <= n == bytes@.len(),
            forall|j: int| 0 <= j < i ==> out@[j] == bytes@[at + j],
        decreases 32 - i,
    {
        out[i] = bytes[at + i];
        i += 1;
    }
    assert(out@ =~= bytes@.subrange(at as int, at + 32));
    out
}

/// The 20 bytes from `at`.
fn fingerprint_at(bytes: &[u8], at: usize) -> (out: [u8; 20])
    requires
        at + 20 <= bytes@.len(),
    ensures
        out@ == bytes@.subrange(at as int, at + 20),
{
    let n: usize = bytes.len();
    let mut out = [0u8; 20];
    let mut i: usize = 0;
    while i < 20
        invariant
            i <= 20,
            at + 20 <= n == bytes@.len(),
            forall|j: int| 0 <= j < i ==> out@[j] == bytes@[at + j],
        decreases 20 - i,
    {
        out[i] = bytes[at + i];
        i += 1;
    }
    assert(out@ =~= bytes@.subrange(at as int, at + 20));
    out
}

/// Where the parts of a stored record lie in the bytes that hold it.
pub proof fn stored_parts(record: RecordView, bytes: Seq<u8>)
    requires
        record.stored_in(bytes),
    ensures
        ({
            let r = byte_len(record.repo) as int;
            let a = byte_len(record.author) as int;
            &&& r <= 64 && a <= 40
            &&& bytes.len() >= 78 + r + a
            &&& bytes.subrange(0, 8) == RECORD_DISCRIMINATOR@
            &&& bytes.subrange(8, 40) == record.owner_reference
            &&& bytes.subrange(40, 60) == record.fingerprint
            &&& spec_u32_from_le_bytes(bytes.subrange(60, 64)) == r
            &&& bytes.subrange(64, 64 + r) == encode_utf8(record.repo)
            &&& valid_utf8(bytes.subrange(64, 64 + r))
            &&& spec_u32_from_le_bytes(bytes.subrange(64 + r, 68 + r)) == a
            &&& bytes.subrange(68 + r, 68 + r + a) == encode_utf8(record.author)
            &&& valid_utf8(bytes.subrange(68 + r, 68 + r + a))
            &&& bytes[68 + r + a] == (if record.verified { 1u8 } else { 0u8 })
            &&& spec_u64_from_le_bytes(bytes.subrange(69 + r + a, 77 + r + a))
                == record.registered_at as u64
            &&& bytes[77 + r + a] == record.disambiguator
        }),
{
    lemma_auto_spec_u32_to_from_le_bytes();
    lemma_auto_spec_u64_to_from_le_bytes();
    encode_utf8_valid_utf8(record.repo);
    encode_utf8_valid_utf8(record.author);
    let r = byte_len(record.repo) as int;
    let a = byte_len(record.author) as int;
    let stored = record.layout();
    assert(stored.len() == 78 + r + a);
    assert(bytes.subrange(0, 8) =~= stored.subrange(0, 8));
    assert(stored.subrange(0, 8) =~= RECORD_DISCRIMINATOR@);
    assert(bytes.subrange(8, 40) =~= stored.subrange(8, 40));
    assert(stored.subrange(8, 40) =~= record.owner_reference);
    assert(bytes.subrange(40, 60) =~= stored.subrange(40, 60));
    assert(stored.subrange(40, 60) =~= record.fingerprint);
    assert(bytes.subrange(60, 64) =~= stored.subrange(60, 64));
    assert(stored.subrange(60, 64) =~= spec_u32_to_le_bytes(r as u32));
    assert(bytes.subrange(64, 64 + r) =~= stored.subrange(64, 64 + r));
    assert(stored.subrange(64, 64 + r) =~= encode_utf8(record.repo));
    assert(bytes.subrange(64 + r, 68 + r) =~= stored.subrange(64 + r, 68 + r));
    assert(stored.subrange(64 + r, 68 + r) =~= spec_u32_to_le_bytes(a as u32));
    assert(bytes.subrange(68 + r, 68 + r + a) =~= stored.subrange(68 + r, 68 + r + a));
    assert(stored.subrange(68 + r, 68 + r + a) =~= encode_utf8(record.author));
    assert(bytes[68 + r + a] == stored[68 + r + a]);
    assert(bytes.subrange(69 + r + a, 77 + r + a) =~= stored.subrange(69 + r + a, 77 + r + a));
    assert(stored.subrange(69 + r + a, 77 + r + a) =~= spec_u64_to_le_bytes(
        record.registered_at as u64,
    ));
    assert(bytes[77 + r + a] == stored[77 + r + a]);
}

/// The stored form determines the record: bytes begin with the stored form
/// of at most one record.
pub proof fn stored_record_is_unique(one: RecordView, other: RecordView, bytes: Seq<u8>)
    requires
        one.stored_in(bytes),
        other.stored_in(bytes),
    ensures
        one == other,
{
    stored_parts(one, bytes);
    stored_parts(other, bytes);
    encode_utf8_decode_utf8(one.repo);
    encode_utf8_decode_utf8(other.repo);
    encode_utf8_decode_utf8(one.author);
    encode_utf8_decode_utf8(other.author);
    let first = one.registered_at;
    let second = other.registered_at;
    assert(first == second) by (bit_vector)
        requires
            first as u64 == second as u64,
    ;
}

/// Reading back: the stored form of a record, whatever bytes follow it,
/// holds that record and no other.
pub proof fn stored_form_reads_back(record: RecordView, rest: Seq<u8>)
    requires
        record.within_bounds(),
    ensures
        record.stored_in(record.layout() + rest),
        forall|other: RecordView| #[trigger]
            other.stored_in(record.layout() + rest) ==> other == record,
{
    let bytes = record.layout() + rest;
    assert(bytes.subrange(0, record.layout().len() as int) =~= record.layout());
    assert forall|other: RecordView| #[trigger] other.stored_in(bytes) implies other
        == record by {
        stored_record_is_unique(other, record, bytes);
    }
}

/// The verdict on the two texts of a registration: the repository name is
/// judged first.
pub open spec fn validation(repo: Seq<char>, author: Seq<char>) -> Result<(), ShardError> {
    if byte_len(repo) > MAX_REPO_LEN {
        Err(ShardError::RepoTooLong)
    } else if byte_len(author) > MAX_AUTHOR_LEN {
        Err(ShardError::AuthorTooLong)
    } else {
        Ok(())
    }
}

/// Judges the lengths of the two texts, in bytes: a repository name of at
/// most 64 and an author name of at most 40 are accepted, nothing else is.
pub fn validate(repo: &str, author: &str) -> (verdict: Result<(), ShardError>)
    ensures
        verdict == validation(repo@, author@),
        verdict is Ok <==> byte_len(repo@) <= MAX_REPO_LEN && byte_len(author@) <= MAX_AUTHOR_LEN,
{
    if repo.as_bytes().len() > MAX_REPO_LEN {
        Err(ShardError::RepoTooLong)
    } else if author.as_bytes().len() > MAX_AUTHOR_LEN {
        Err(ShardError::AuthorTooLong)
    } else {
        Ok(())
    }
}

/// The reserved size is the header, the fixed fields and both texts at
/// their greatest length; no record within bounds needs more.
pub proof fn footprint_fits(record: RecordView)
    requires
        record.within_bounds(),
    ensures
        record.footprint() <= RECORD_SIZE,
        RECORD_SIZE == 8 + 32 + 20 + (4 + MAX_REPO_LEN) + (4 + MAX_AUTHOR_LEN) + 1 + 8 + 1,
{
}

} // verus!
